//! The three operations on a stored file: upload, download and delete.
//!
//! Each operation is a machine. Its state says what has been done; from the
//! state follows the one action that is due next, and each event that the
//! caller reports moves the state on. The caller performs the actions:
//! it sends the requests, sleeps through the pauses and touches the files.
//! An operation runs to its end or to its first failure; nothing is retried
//! and nothing is undone.

use crate::chunks::{chunk_count, chunk_length, chunk_offset, chunk_window, count_chunks};
use crate::decimal::{decimal, push_decimal};
use crate::discord::{message_of, settled, DiscordMessage, MessageView, Response, ResponseView};
use crate::error::TransferError;
use crate::index::{
    checked_text, decoded, lemma_decoded_is_valid, numbered, parts_view, Index, IndexView, PartRef,
    PartRefView,
};
use crate::json_format::json_document;
use crate::toml_format::toml_document;
use vstd::prelude::*;
use vstd::string::*;

verus! {

/// What the caller reports after it has performed an action.
#[derive(Debug)]
pub enum Event {
    /// The request was sent, and this is what came back.
    Answer(Response),
    /// The pause is over, or the output file stands ready.
    Completed,
    /// A local file could not be opened, read or written.
    LocalFailure,
}

/// The mathematical content of an [`Event`].
pub enum EventView {
    Answer(ResponseView),
    Completed,
    LocalFailure,
}

impl View for Event {
    type V = EventView;

    open spec fn view(&self) -> EventView {
        match self {
            Event::Answer(response) => EventView::Answer(response@),
            Event::Completed => EventView::Completed,
            Event::LocalFailure => EventView::LocalFailure,
        }
    }
}

/// Whether an operation goes on, waits, or has given up.
#[derive(Debug)]
pub enum Status {
    /// The next request may go out.
    Active,
    /// The remote quota is used up: no request goes out before the caller
    /// has waited for the seconds that `reset_after` gives.
    Pausing { reset_after: String },
    /// The operation was abandoned. `part` is the number of the part that
    /// was being handled, where one was.
    Failed { error: TransferError, part: Option<u64> },
}

/// The mathematical content of a [`Status`].
pub enum StatusView {
    Active,
    Pausing { reset_after: Seq<char> },
    Failed { error: TransferError, part: Option<u64> },
}

impl View for Status {
    type V = StatusView;

    open spec fn view(&self) -> StatusView {
        match self {
            Status::Active => StatusView::Active,
            Status::Pausing { reset_after } => StatusView::Pausing { reset_after: reset_after@ },
            Status::Failed { error, part } => StatusView::Failed { error: *error, part: *part },
        }
    }
}

/// The status after an answer that was accepted: a pause where the answer
/// asked for one.
pub open spec fn paced(wait: Option<Seq<char>>) -> StatusView {
    match wait {
        Some(reset_after) => StatusView::Pausing { reset_after },
        None => StatusView::Active,
    }
}

/// The status after an answer that was accepted.
fn pace(wait: Option<String>) -> (r: Status)
    ensures
        r@ == paced(
            match wait {
                Some(text) => Some(text@),
                None => None,
            },
        ),
{
    match wait {
        Some(reset_after) => Status::Pausing { reset_after },
        None => Status::Active,
    }
}

/// The display name of the chunk numbered `k`.
pub open spec fn chunk_name(k: u64) -> Seq<char> {
    "chuncord_"@ + decimal(k as nat)
}

/// The display name of the index, which is the name of no chunk.
pub open spec fn index_name() -> Seq<char> {
    "chuncord_index.toml"@
}

/// The state of an upload: the file is cut into chunks, each chunk is stored
/// as one object, and then the index that lists them is stored as one more.
pub struct Upload {
    name: String,
    size: u64,
    chunk_bytes: u64,
    parts: Vec<PartRef>,
    manifest: Option<String>,
    handle: Option<DiscordMessage>,
    status: Status,
}

/// The mathematical content of an [`Upload`].
pub struct UploadView {
    /// The file's name.
    pub name: Seq<char>,
    /// The file's length in bytes.
    pub size: u64,
    /// The most bytes that a chunk holds.
    pub chunk_bytes: u64,
    /// The chunks stored so far.
    pub parts: Seq<PartRefView>,
    /// The text of the index, once every chunk is stored.
    pub manifest: Option<Seq<char>>,
    /// The object that holds the index, once it is stored.
    pub handle: Option<MessageView>,
    pub status: StatusView,
}

/// The content of a text that may be absent.
pub open spec fn text_view(text: Option<String>) -> Option<Seq<char>> {
    match text {
        Some(text) => Some(text@),
        None => None,
    }
}

/// The content of a message that may be absent.
pub open spec fn handle_view(handle: Option<DiscordMessage>) -> Option<MessageView> {
    match handle {
        Some(message) => Some(message@),
        None => None,
    }
}

impl View for Upload {
    type V = UploadView;

    closed spec fn view(&self) -> UploadView {
        UploadView {
            name: self.name@,
            size: self.size,
            chunk_bytes: self.chunk_bytes,
            parts: parts_view(self.parts@),
            manifest: text_view(self.manifest),
            handle: handle_view(self.handle),
            status: self.status@,
        }
    }
}

/// What an upload asks its caller to do next.
#[derive(Debug)]
pub enum UploadAction {
    /// Store the `length` bytes of the file from `offset` on as one object,
    /// under the display name `filename`.
    StoreChunk { filename: String, offset: u64, length: u64 },
    /// Store `body` as one object, under the display name `filename`.
    StoreIndex { filename: String, body: String },
    /// Wait for the seconds that `reset_after` gives.
    Pause { reset_after: String },
    /// The file is stored: `url` fetches its index, `mid` erases it.
    Finish { url: String, mid: u64 },
    /// The upload was abandoned.
    Fail { error: TransferError, part: Option<u64> },
}

/// The mathematical content of an [`UploadAction`].
pub enum UploadActionView {
    StoreChunk { filename: Seq<char>, offset: u64, length: u64 },
    StoreIndex { filename: Seq<char>, body: Seq<char> },
    Pause { reset_after: Seq<char> },
    Finish { url: Seq<char>, mid: u64 },
    Fail { error: TransferError, part: Option<u64> },
}

impl View for UploadAction {
    type V = UploadActionView;

    open spec fn view(&self) -> UploadActionView {
        match self {
            UploadAction::StoreChunk { filename, offset, length } => UploadActionView::StoreChunk {
                filename: filename@,
                offset: *offset,
                length: *length,
            },
            UploadAction::StoreIndex { filename, body } => UploadActionView::StoreIndex {
                filename: filename@,
                body: body@,
            },
            UploadAction::Pause { reset_after } => UploadActionView::Pause {
                reset_after: reset_after@,
            },
            UploadAction::Finish { url, mid } => UploadActionView::Finish { url: url@, mid: *mid },
            UploadAction::Fail { error, part } => UploadActionView::Fail {
                error: *error,
                part: *part,
            },
        }
    }
}

impl UploadView {
    /// The number of chunks that the file has.
    pub open spec fn total(self) -> nat {
        chunk_count(self.size as nat, self.chunk_bytes as nat)
    }

    /// The index of the chunks stored so far.
    pub open spec fn index(self) -> IndexView {
        IndexView { name: self.name, size: self.size, parts: self.parts }
    }

    /// The state is one that an upload can be in: the chunks stored so far
    /// are numbered from zero and are no more than the file has, the index
    /// text exists exactly when all of them are stored and is then the
    /// text of their index, which reads back as that index, and the index is
    /// stored only after that and only in an upload that has not failed.
    pub open spec fn wf(self) -> bool {
        &&& self.chunk_bytes > 0
        &&& self.parts.len() <= self.total()
        &&& numbered(self.parts)
        &&& self.manifest matches Some(text) ==> self.parts.len() == self.total() && checked_text(
            self.index(),
        ) == Some(text)
        &&& !(self.status is Failed) && self.parts.len() == self.total() ==> self.manifest is Some
        &&& self.handle is Some ==> self.manifest is Some && !(self.status is Failed)
    }

    /// The upload has stored the index and every chunk.
    pub open spec fn finished(self) -> bool {
        self.handle is Some
    }

    /// The same state with another status.
    pub open spec fn with_status(self, status: StatusView) -> UploadView {
        UploadView { status, ..self }
    }

    /// The part that is being handled, if one is.
    pub open spec fn pending_part(self) -> Option<u64> {
        if self.manifest is Some {
            None
        } else {
            Some(self.parts.len() as u64)
        }
    }

    /// The state after the object that was asked for has been stored as
    /// `message`, and the answer asked for `wait`. With the last chunk the
    /// text of the index is written and read back; where the writer refuses
    /// the index, or the text does not read back as the index, the upload
    /// fails with `CorruptIndex`.
    pub open spec fn stored(self, message: MessageView, wait: Option<Seq<char>>) -> UploadView {
        if self.manifest is Some {
            UploadView { handle: Some(message), status: paced(wait), ..self }
        } else {
            let part = PartRefView {
                sequence: self.parts.len() as u64,
                remote_id: message.id,
                remote_locator: message.url,
            };
            let more = UploadView { parts: self.parts.push(part), ..self };
            if more.parts.len() == more.total() {
                match checked_text(more.index()) {
                    Some(text) => UploadView { manifest: Some(text), status: paced(wait), ..more },
                    None => more.with_status(
                        StatusView::Failed { error: TransferError::CorruptIndex, part: None },
                    ),
                }
            } else {
                more.with_status(paced(wait))
            }
        }
    }
}

/// The state in which an upload begins.
pub open spec fn upload_start(name: Seq<char>, size: u64, chunk_bytes: u64) -> UploadView {
    UploadView {
        name,
        size,
        chunk_bytes,
        parts: Seq::empty(),
        manifest: None,
        handle: None,
        status: StatusView::Active,
    }
}

/// The action that is due in a state.
pub open spec fn upload_action(s: UploadView) -> UploadActionView {
    match s.status {
        StatusView::Failed { error, part } => UploadActionView::Fail { error, part },
        StatusView::Pausing { reset_after } => UploadActionView::Pause { reset_after },
        StatusView::Active => match s.handle {
            Some(message) => UploadActionView::Finish { url: message.url, mid: message.id },
            None => match s.manifest {
                Some(body) => UploadActionView::StoreIndex { filename: index_name(), body },
                None => UploadActionView::StoreChunk {
                    filename: chunk_name(s.parts.len() as u64),
                    offset: chunk_offset(s.chunk_bytes as nat, s.parts.len()) as u64,
                    length: chunk_length(s.size as nat, s.chunk_bytes as nat, s.parts.len()) as u64,
                },
            },
        },
    }
}

/// The state that follows `s` when the caller reports `e`.
///
/// A failed or finished upload stays as it is. A pause ends when the caller
/// reports it completed, and with nothing else. While a request is out, an
/// answer is judged by its status, then by its quota headers, then by its
/// body; the first fault fails the upload, and a local failure fails it
/// too.
pub open spec fn upload_next(s: UploadView, e: EventView) -> UploadView {
    match s.status {
        StatusView::Failed { .. } => s,
        StatusView::Pausing { .. } => match e {
            EventView::Completed => s.with_status(StatusView::Active),
            _ => s,
        },
        StatusView::Active => if s.finished() {
            s
        } else {
            match e {
                EventView::Completed => s,
                EventView::LocalFailure => s.with_status(
                    StatusView::Failed { error: TransferError::LocalIo, part: s.pending_part() },
                ),
                EventView::Answer(response) => match settled(response) {
                    Err(error) => s.with_status(
                        StatusView::Failed { error, part: s.pending_part() },
                    ),
                    Ok(wait) => match message_of(json_document(response.body)) {
                        Err(error) => s.with_status(
                            StatusView::Failed { error, part: s.pending_part() },
                        ),
                        Ok(message) => s.stored(message, wait),
                    },
                },
            }
        },
    }
}

impl Upload {
    #[verifier::type_invariant]
    spec fn inv(self) -> bool {
        self@.wf()
    }

    /// Begins the upload of a file named `name` of `size` bytes, cut at
    /// every `chunk_bytes` bytes.
    pub fn new(name: String, size: u64, chunk_bytes: u64) -> (r: Upload)
        requires
            chunk_bytes > 0,
        ensures
            r@ == upload_start(name@, size, chunk_bytes),
            r@.wf(),
    {
        proof {
            crate::chunks::lemma_chunk_coverage(size as nat, chunk_bytes as nat);
        }
        let r = Upload {
            name,
            size,
            chunk_bytes,
            parts: Vec::new(),
            manifest: None,
            handle: None,
            status: Status::Active,
        };
        assert(r@.parts =~= Seq::empty());
        r
    }

    /// The action that is due.
    pub fn action(&self) -> (r: UploadAction)
        ensures
            r@ == upload_action(self@),
            self@.wf(),
    {
        proof {
            use_type_invariant(self);
        }
        match &self.status {
            Status::Failed { error, part } => UploadAction::Fail { error: *error, part: *part },
            Status::Pausing { reset_after } => UploadAction::Pause {
                reset_after: reset_after.clone(),
            },
            Status::Active => match &self.handle {
                Some(message) => UploadAction::Finish {
                    url: message.attachment.url.clone(),
                    mid: message.id,
                },
                None => match &self.manifest {
                    Some(body) => UploadAction::StoreIndex {
                        filename: "chuncord_index.toml".to_owned(),
                        body: body.clone(),
                    },
                    None => {
                        let k: u64 = self.parts.len() as u64;
                        let window = chunk_window(self.size, self.chunk_bytes, k);
                        let mut filename = "chuncord_".to_owned();
                        push_decimal(&mut filename, k);
                        UploadAction::StoreChunk { filename, offset: window.0, length: window.1 }
                    },
                },
            },
        }
    }

    /// How far the upload has come: the bytes handed out as chunks, of how
    /// many, and the chunks stored, of how many.
    pub fn progress(&self) -> (r: (u64, u64, u64, u64))
        ensures
            r.1 == self@.size,
            r.2 == self@.parts.len(),
            r.3 == self@.total(),
            r.0 == crate::chunks::covered(
                self@.size as nat,
                self@.chunk_bytes as nat,
                self@.parts.len(),
            ),
    {
        proof {
            use_type_invariant(self);
            crate::chunks::lemma_covered(
                self.size as nat,
                self.chunk_bytes as nat,
                self.parts@.len(),
            );
            crate::chunks::lemma_chunk_coverage(self.size as nat, self.chunk_bytes as nat);
        }
        let total: u64 = count_chunks(self.size, self.chunk_bytes);
        let done: u64 = self.parts.len() as u64;
        let bytes: u64 = if done < total {
            chunk_window(self.size, self.chunk_bytes, done).0
        } else {
            self.size
        };
        (bytes, self.size, done, total)
    }
}

/// Moves an upload on by one event: the result is the state that follows,
/// and it is again a state that an upload can be in.
pub fn upload(state: Upload, event: Event) -> (r: Upload)
    ensures
        r@ == upload_next(state@, event@),
        r@.wf(),
{
    proof {
        use_type_invariant(&state);
    }
    let Upload { name, size, chunk_bytes, mut parts, manifest, handle, status } = state;
    match status {
        Status::Failed { error, part } => Upload {
            name,
            size,
            chunk_bytes,
            parts,
            manifest,
            handle,
            status: Status::Failed { error, part },
        },
        Status::Pausing { reset_after } => match event {
            Event::Completed => Upload {
                name,
                size,
                chunk_bytes,
                parts,
                manifest,
                handle,
                status: Status::Active,
            },
            _ => Upload {
                name,
                size,
                chunk_bytes,
                parts,
                manifest,
                handle,
                status: Status::Pausing { reset_after },
            },
        },
        Status::Active => {
            if handle.is_some() {
                return Upload {
                    name,
                    size,
                    chunk_bytes,
                    parts,
                    manifest,
                    handle,
                    status: Status::Active,
                };
            }
            let pending: Option<u64> = if manifest.is_some() {
                None
            } else {
                Some(parts.len() as u64)
            };
            let outcome: Result<(DiscordMessage, Option<String>), TransferError> = match event {
                Event::Completed => {
                    return Upload {
                        name,
                        size,
                        chunk_bytes,
                        parts,
                        manifest,
                        handle,
                        status: Status::Active,
                    };
                },
                Event::LocalFailure => Err(TransferError::LocalIo),
                Event::Answer(response) => match response.settle() {
                    Err(error) => Err(error),
                    Ok(wait) => match DiscordMessage::parse(response.body.as_str()) {
                        Err(error) => Err(error),
                        Ok(message) => Ok((message, wait)),
                    },
                },
            };
            match outcome {
                Err(error) => Upload {
                    name,
                    size,
                    chunk_bytes,
                    parts,
                    manifest,
                    handle,
                    status: Status::Failed { error, part: pending },
                },
                Ok((message, wait)) => {
                    if manifest.is_some() {
                        Upload {
                            name,
                            size,
                            chunk_bytes,
                            parts,
                            manifest,
                            handle: Some(message),
                            status: pace(wait),
                        }
                    } else {
                        let ghost before = parts_view(parts@);
                        let part = PartRef {
                            sequence: parts.len() as u64,
                            remote_id: message.id,
                            remote_locator: message.attachment.url,
                        };
                        parts.push(part);
                        assert(parts_view(parts@) =~= before.push(part@));
                        let total: u64 = count_chunks(size, chunk_bytes);
                        if parts.len() as u64 == total {
                            let index = Index { name, size, parts };
                            let text = index.serialize_checked();
                            let Index { name, size, parts } = index;
                            match text {
                                Some(text) => Upload {
                                    name,
                                    size,
                                    chunk_bytes,
                                    parts,
                                    manifest: Some(text),
                                    handle,
                                    status: pace(wait),
                                },
                                None => Upload {
                                    name,
                                    size,
                                    chunk_bytes,
                                    parts,
                                    manifest,
                                    handle,
                                    status: Status::Failed {
                                        error: TransferError::CorruptIndex,
                                        part: None,
                                    },
                                },
                            }
                        } else {
                            Upload {
                                name,
                                size,
                                chunk_bytes,
                                parts,
                                manifest,
                                handle,
                                status: pace(wait),
                            }
                        }
                    }
                },
            }
        },
    }
}

/// The content of an index that may be absent.
pub open spec fn index_view(index: Option<Index>) -> Option<IndexView> {
    match index {
        Some(index) => Some(index@),
        None => None,
    }
}

/// The state of a download: the index is fetched, the output is made ready,
/// and then the parts are fetched in the order of their numbers, each
/// written to the output behind the one before.
pub struct Download {
    url: String,
    index: Option<Index>,
    ready: bool,
    fetched: usize,
    status: Status,
}

/// The mathematical content of a [`Download`].
pub struct DownloadView {
    /// The address of the index.
    pub url: Seq<char>,
    /// The index, once it is fetched.
    pub index: Option<IndexView>,
    /// The output stands ready.
    pub ready: bool,
    /// The number of parts fetched and written so far.
    pub fetched: nat,
    pub status: StatusView,
}

impl View for Download {
    type V = DownloadView;

    closed spec fn view(&self) -> DownloadView {
        DownloadView {
            url: self.url@,
            index: index_view(self.index),
            ready: self.ready,
            fetched: self.fetched as nat,
            status: self.status@,
        }
    }
}

/// What a download asks its caller to do next.
#[derive(Debug)]
pub enum DownloadAction {
    /// Fetch the index from `url`, and report the answer with its body.
    FetchIndex { url: String },
    /// Make the output ready for `size` bytes; `name` is the name that the
    /// file had when it was stored.
    CreateOutput { name: String, size: u64 },
    /// Fetch part `sequence` of `total` from `url`, and write its bytes to
    /// the output behind what is there.
    FetchPart { url: String, sequence: u64, total: u64 },
    /// Wait for the seconds that `reset_after` gives.
    Pause { reset_after: String },
    /// Every part is written.
    Finish,
    /// The download was abandoned.
    Fail { error: TransferError, part: Option<u64> },
}

/// The mathematical content of a [`DownloadAction`].
pub enum DownloadActionView {
    FetchIndex { url: Seq<char> },
    CreateOutput { name: Seq<char>, size: u64 },
    FetchPart { url: Seq<char>, sequence: u64, total: u64 },
    Pause { reset_after: Seq<char> },
    Finish,
    Fail { error: TransferError, part: Option<u64> },
}

impl View for DownloadAction {
    type V = DownloadActionView;

    open spec fn view(&self) -> DownloadActionView {
        match self {
            DownloadAction::FetchIndex { url } => DownloadActionView::FetchIndex { url: url@ },
            DownloadAction::CreateOutput { name, size } => DownloadActionView::CreateOutput {
                name: name@,
                size: *size,
            },
            DownloadAction::FetchPart { url, sequence, total } => DownloadActionView::FetchPart {
                url: url@,
                sequence: *sequence,
                total: *total,
            },
            DownloadAction::Pause { reset_after } => DownloadActionView::Pause {
                reset_after: reset_after@,
            },
            DownloadAction::Finish => DownloadActionView::Finish,
            DownloadAction::Fail { error, part } => DownloadActionView::Fail {
                error: *error,
                part: *part,
            },
        }
    }
}

impl DownloadView {
    /// The state is one that a download can be in: the index, once there, is
    /// valid; the output is made ready only after that, and parts are
    /// fetched only after that, and no more of them than the index lists.
    pub open spec fn wf(self) -> bool {
        &&& self.index matches Some(index) ==> index.valid() && self.fetched <= index.parts.len()
        &&& self.index is None ==> !self.ready
        &&& !self.ready ==> self.fetched == 0
    }

    /// Every part is fetched and written.
    pub open spec fn finished(self) -> bool {
        self.index matches Some(index) && self.ready && self.fetched == index.parts.len()
    }

    /// The same state with another status.
    pub open spec fn with_status(self, status: StatusView) -> DownloadView {
        DownloadView { status, ..self }
    }

    /// The part that is being handled, if one is.
    pub open spec fn pending_part(self) -> Option<u64> {
        if self.ready {
            Some(self.fetched as u64)
        } else {
            None
        }
    }

    /// The same state, failed with `error`.
    pub open spec fn failed(self, error: TransferError) -> DownloadView {
        self.with_status(StatusView::Failed { error, part: self.pending_part() })
    }
}

/// The state in which a download begins.
pub open spec fn download_start(url: Seq<char>) -> DownloadView {
    DownloadView { url, index: None, ready: false, fetched: 0, status: StatusView::Active }
}

/// The action that is due in a state.
pub open spec fn download_action(s: DownloadView) -> DownloadActionView {
    match s.status {
        StatusView::Failed { error, part } => DownloadActionView::Fail { error, part },
        StatusView::Pausing { reset_after } => DownloadActionView::Pause { reset_after },
        StatusView::Active => match s.index {
            None => DownloadActionView::FetchIndex { url: s.url },
            Some(index) => if !s.ready {
                DownloadActionView::CreateOutput { name: index.name, size: index.size }
            } else if s.fetched < index.parts.len() {
                DownloadActionView::FetchPart {
                    url: index.parts[s.fetched as int].remote_locator,
                    sequence: s.fetched as u64,
                    total: index.parts.len() as u64,
                }
            } else {
                DownloadActionView::Finish
            },
        },
    }
}

/// The state that follows `s` when the caller reports `e`.
///
/// A failed or finished download stays as it is. A pause ends when the
/// caller reports it completed, and with nothing else. The answer to the
/// request for the index is judged by its status, then by its quota
/// headers, then by its body, which has to hold a valid index. The output
/// counts as ready when the caller reports so. The answer to the request for
/// a part is judged by its status and its quota headers; the part then
/// counts as written. The first fault fails the download, and a local
/// failure fails it too.
pub open spec fn download_next(s: DownloadView, e: EventView) -> DownloadView {
    match s.status {
        StatusView::Failed { .. } => s,
        StatusView::Pausing { .. } => match e {
            EventView::Completed => s.with_status(StatusView::Active),
            _ => s,
        },
        StatusView::Active => match s.index {
            None => match e {
                EventView::Completed => s,
                EventView::LocalFailure => s.failed(TransferError::LocalIo),
                EventView::Answer(response) => match settled(response) {
                    Err(error) => s.failed(error),
                    Ok(wait) => match decoded(toml_document(response.body)) {
                        Err(error) => s.failed(error),
                        Ok(index) => DownloadView { index: Some(index), status: paced(wait), ..s },
                    },
                },
            },
            Some(index) => if !s.ready {
                match e {
                    EventView::Completed => DownloadView { ready: true, ..s },
                    EventView::LocalFailure => s.failed(TransferError::LocalIo),
                    EventView::Answer(_) => s,
                }
            } else if s.fetched < index.parts.len() {
                match e {
                    EventView::Completed => s,
                    EventView::LocalFailure => s.failed(TransferError::LocalIo),
                    EventView::Answer(response) => match settled(response) {
                        Err(error) => s.failed(error),
                        Ok(wait) => DownloadView {
                            fetched: s.fetched + 1,
                            status: paced(wait),
                            ..s
                        },
                    },
                }
            } else {
                s
            },
        },
    }
}

impl Download {
    #[verifier::type_invariant]
    spec fn inv(self) -> bool {
        self@.wf()
    }

    /// Begins the download of the file whose index is at `url`.
    pub fn new(url: String) -> (r: Download)
        ensures
            r@ == download_start(url@),
            r@.wf(),
    {
        Download { url, index: None, ready: false, fetched: 0, status: Status::Active }
    }

    /// The action that is due.
    pub fn action(&self) -> (r: DownloadAction)
        ensures
            r@ == download_action(self@),
            self@.wf(),
    {
        proof {
            use_type_invariant(self);
        }
        match &self.status {
            Status::Failed { error, part } => DownloadAction::Fail { error: *error, part: *part },
            Status::Pausing { reset_after } => DownloadAction::Pause {
                reset_after: reset_after.clone(),
            },
            Status::Active => match &self.index {
                None => DownloadAction::FetchIndex { url: self.url.clone() },
                Some(index) => {
                    if !self.ready {
                        DownloadAction::CreateOutput { name: index.name.clone(), size: index.size }
                    } else if self.fetched < index.parts.len() {
                        DownloadAction::FetchPart {
                            url: index.parts[self.fetched].remote_locator.clone(),
                            sequence: self.fetched as u64,
                            total: index.parts.len() as u64,
                        }
                    } else {
                        DownloadAction::Finish
                    }
                },
            },
        }
    }
}

/// Moves a download on by one event: the result is the state that follows,
/// and it is again a state that a download can be in.
pub fn download(state: Download, event: Event) -> (r: Download)
    ensures
        r@ == download_next(state@, event@),
        r@.wf(),
{
    proof {
        use_type_invariant(&state);
    }
    let Download { url, index, ready, fetched, status } = state;
    match status {
        Status::Failed { error, part } => Download {
            url,
            index,
            ready,
            fetched,
            status: Status::Failed { error, part },
        },
        Status::Pausing { reset_after } => match event {
            Event::Completed => Download { url, index, ready, fetched, status: Status::Active },
            _ => Download { url, index, ready, fetched, status: Status::Pausing { reset_after } },
        },
        Status::Active => {
            let pending: Option<u64> = if ready {
                Some(fetched as u64)
            } else {
                None
            };
            match index {
                None => match event {
                    Event::Completed => Download {
                        url,
                        index: None,
                        ready,
                        fetched,
                        status: Status::Active,
                    },
                    Event::LocalFailure => Download {
                        url,
                        index: None,
                        ready,
                        fetched,
                        status: Status::Failed { error: TransferError::LocalIo, part: pending },
                    },
                    Event::Answer(response) => match response.settle() {
                        Err(error) => Download {
                            url,
                            index: None,
                            ready,
                            fetched,
                            status: Status::Failed { error, part: pending },
                        },
                        Ok(wait) => match Index::deserialize(response.body.as_str()) {
                            Err(error) => Download {
                                url,
                                index: None,
                                ready,
                                fetched,
                                status: Status::Failed { error, part: pending },
                            },
                            Ok(found) => {
                                proof {
                                    lemma_decoded_is_valid(toml_document(response.body@).unwrap());
                                }
                                Download {
                                    url,
                                    index: Some(found),
                                    ready,
                                    fetched,
                                    status: pace(wait),
                                }
                            },
                        },
                    },
                },
                Some(found) => {
                    if !ready {
                        match event {
                            Event::Completed => Download {
                                url,
                                index: Some(found),
                                ready: true,
                                fetched,
                                status: Status::Active,
                            },
                            Event::LocalFailure => Download {
                                url,
                                index: Some(found),
                                ready,
                                fetched,
                                status: Status::Failed {
                                    error: TransferError::LocalIo,
                                    part: pending,
                                },
                            },
                            Event::Answer(_) => Download {
                                url,
                                index: Some(found),
                                ready,
                                fetched,
                                status: Status::Active,
                            },
                        }
                    } else if fetched < found.parts.len() {
                        match event {
                            Event::Completed => Download {
                                url,
                                index: Some(found),
                                ready,
                                fetched,
                                status: Status::Active,
                            },
                            Event::LocalFailure => Download {
                                url,
                                index: Some(found),
                                ready,
                                fetched,
                                status: Status::Failed {
                                    error: TransferError::LocalIo,
                                    part: pending,
                                },
                            },
                            Event::Answer(response) => match response.settle() {
                                Err(error) => Download {
                                    url,
                                    index: Some(found),
                                    ready,
                                    fetched,
                                    status: Status::Failed { error, part: pending },
                                },
                                Ok(wait) => Download {
                                    url,
                                    index: Some(found),
                                    ready,
                                    fetched: fetched + 1,
                                    status: pace(wait),
                                },
                            },
                        }
                    } else {
                        Download { url, index: Some(found), ready, fetched, status: Status::Active }
                    }
                },
            }
        },
    }
}

/// Where a download writes the file.
#[derive(Debug)]
pub enum OutputTarget {
    /// To the path that was given, as it is.
    Path { path: String },
    /// Into the directory that was given, under the name that the file had
    /// when it was stored.
    InDirectory { directory: String, name: String },
    /// Into the working directory, under the name that the file had when it
    /// was stored.
    Named { name: String },
}

/// The mathematical content of an [`OutputTarget`].
pub enum OutputTargetView {
    Path { path: Seq<char> },
    InDirectory { directory: Seq<char>, name: Seq<char> },
    Named { name: Seq<char> },
}

impl View for OutputTarget {
    type V = OutputTargetView;

    open spec fn view(&self) -> OutputTargetView {
        match self {
            OutputTarget::Path { path } => OutputTargetView::Path { path: path@ },
            OutputTarget::InDirectory { directory, name } => OutputTargetView::InDirectory {
                directory: directory@,
                name: name@,
            },
            OutputTarget::Named { name } => OutputTargetView::Named { name: name@ },
        }
    }
}

/// Decides where a download writes: to the path given, or under the stored
/// name inside it where it is a directory, or under the stored name in the
/// working directory where none is given. Whether the path is a directory
/// is for the caller to find out.
pub fn resolve_output(path: Option<&str>, is_dir: bool, name: &str) -> (r: OutputTarget)
    ensures
        r@ == match path {
            Some(path) => if is_dir {
                OutputTargetView::InDirectory { directory: path@, name: name@ }
            } else {
                OutputTargetView::Path { path: path@ }
            },
            None => OutputTargetView::Named { name: name@ },
        },
{
    match path {
        Some(path) => {
            if is_dir {
                OutputTarget::InDirectory { directory: path.to_owned(), name: name.to_owned() }
            } else {
                OutputTarget::Path { path: path.to_owned() }
            }
        },
        None => OutputTarget::Named { name: name.to_owned() },
    }
}

/// The state of a delete: the message that holds the index is looked up, the
/// index is fetched, every part that it lists is erased in the order of the
/// numbers, and then the index itself.
pub struct Delete {
    mid: u64,
    locator: Option<String>,
    index: Option<Index>,
    erased: usize,
    index_erased: bool,
    status: Status,
}

/// The mathematical content of a [`Delete`].
pub struct DeleteView {
    /// The key of the message that holds the index.
    pub mid: u64,
    /// The address of the index, once the message is looked up.
    pub locator: Option<Seq<char>>,
    /// The index, once it is fetched.
    pub index: Option<IndexView>,
    /// The number of parts erased so far.
    pub erased: nat,
    /// The message that holds the index is erased.
    pub index_erased: bool,
    pub status: StatusView,
}

impl View for Delete {
    type V = DeleteView;

    closed spec fn view(&self) -> DeleteView {
        DeleteView {
            mid: self.mid,
            locator: text_view(self.locator),
            index: index_view(self.index),
            erased: self.erased as nat,
            index_erased: self.index_erased,
            status: self.status@,
        }
    }
}

/// What a delete asks its caller to do next.
#[derive(Debug)]
pub enum DeleteAction {
    /// Fetch the message `mid`, and report the answer with its body.
    Lookup { mid: u64 },
    /// Fetch the index from `url`, and report the answer with its body.
    FetchIndex { url: String },
    /// Erase the message `remote_id`, which holds part `sequence` of `total`.
    ErasePart { remote_id: u64, sequence: u64, total: u64 },
    /// Erase the message `remote_id`, which holds the index.
    EraseIndex { remote_id: u64 },
    /// Wait for the seconds that `reset_after` gives.
    Pause { reset_after: String },
    /// Every part and the index are erased.
    Finish,
    /// The delete was abandoned; what was not erased by then stays.
    Fail { error: TransferError, part: Option<u64> },
}

/// The mathematical content of a [`DeleteAction`].
pub enum DeleteActionView {
    Lookup { mid: u64 },
    FetchIndex { url: Seq<char> },
    ErasePart { remote_id: u64, sequence: u64, total: u64 },
    EraseIndex { remote_id: u64 },
    Pause { reset_after: Seq<char> },
    Finish,
    Fail { error: TransferError, part: Option<u64> },
}

impl View for DeleteAction {
    type V = DeleteActionView;

    open spec fn view(&self) -> DeleteActionView {
        match self {
            DeleteAction::Lookup { mid } => DeleteActionView::Lookup { mid: *mid },
            DeleteAction::FetchIndex { url } => DeleteActionView::FetchIndex { url: url@ },
            DeleteAction::ErasePart { remote_id, sequence, total } => DeleteActionView::ErasePart {
                remote_id: *remote_id,
                sequence: *sequence,
                total: *total,
            },
            DeleteAction::EraseIndex { remote_id } => DeleteActionView::EraseIndex {
                remote_id: *remote_id,
            },
            DeleteAction::Pause { reset_after } => DeleteActionView::Pause {
                reset_after: reset_after@,
            },
            DeleteAction::Finish => DeleteActionView::Finish,
            DeleteAction::Fail { error, part } => DeleteActionView::Fail {
                error: *error,
                part: *part,
            },
        }
    }
}

impl DeleteView {
    /// The state is one that a delete can be in: the index is fetched only
    /// after the message is looked up and is valid; parts are erased only
    /// after that, and no more of them than the index lists; the index is
    /// erased only after all of them, and a delete that failed has not
    /// erased it.
    pub open spec fn wf(self) -> bool {
        &&& self.index matches Some(index) ==> index.valid() && self.erased <= index.parts.len()
            && self.locator is Some && (self.index_erased ==> self.erased == index.parts.len())
        &&& self.index is None ==> self.erased == 0 && !self.index_erased
        &&& self.status is Failed ==> !self.index_erased
    }

    /// Every part and the index are erased.
    pub open spec fn finished(self) -> bool {
        self.index is Some && self.index_erased
    }

    /// The same state with another status.
    pub open spec fn with_status(self, status: StatusView) -> DeleteView {
        DeleteView { status, ..self }
    }

    /// The part that is being handled, if one is.
    pub open spec fn pending_part(self) -> Option<u64> {
        match self.index {
            Some(index) => if self.erased < index.parts.len() {
                Some(self.erased as u64)
            } else {
                None
            },
            None => None,
        }
    }

    /// The same state, failed with `error`.
    pub open spec fn failed(self, error: TransferError) -> DeleteView {
        self.with_status(StatusView::Failed { error, part: self.pending_part() })
    }
}

/// The state in which a delete begins.
pub open spec fn delete_start(mid: u64) -> DeleteView {
    DeleteView {
        mid,
        locator: None,
        index: None,
        erased: 0,
        index_erased: false,
        status: StatusView::Active,
    }
}

/// The action that is due in a state.
pub open spec fn delete_action(s: DeleteView) -> DeleteActionView {
    match s.status {
        StatusView::Failed { error, part } => DeleteActionView::Fail { error, part },
        StatusView::Pausing { reset_after } => DeleteActionView::Pause { reset_after },
        StatusView::Active => match (s.locator, s.index) {
            (None, _) => DeleteActionView::Lookup { mid: s.mid },
            (Some(url), None) => DeleteActionView::FetchIndex { url },
            (Some(_), Some(index)) => if s.erased < index.parts.len() {
                DeleteActionView::ErasePart {
                    remote_id: index.parts[s.erased as int].remote_id,
                    sequence: s.erased as u64,
                    total: index.parts.len() as u64,
                }
            } else if !s.index_erased {
                DeleteActionView::EraseIndex { remote_id: s.mid }
            } else {
                DeleteActionView::Finish
            },
        },
    }
}

/// The state after an answer that was accepted, and that asked for `wait`,
/// in a state in which a request was out.
pub open spec fn delete_accepted(
    s: DeleteView,
    response: ResponseView,
    wait: Option<Seq<char>>,
) -> DeleteView {
    match (s.locator, s.index) {
        (None, _) => match message_of(json_document(response.body)) {
            Err(error) => s.failed(error),
            Ok(message) => DeleteView { locator: Some(message.url), status: paced(wait), ..s },
        },
        (Some(_), None) => match decoded(toml_document(response.body)) {
            Err(error) => s.failed(error),
            Ok(index) => DeleteView { index: Some(index), status: paced(wait), ..s },
        },
        (Some(_), Some(index)) => if s.erased < index.parts.len() {
            DeleteView { erased: s.erased + 1, status: paced(wait), ..s }
        } else {
            DeleteView { index_erased: true, status: paced(wait), ..s }
        },
    }
}

/// The state that follows `s` when the caller reports `e`.
///
/// A failed or finished delete stays as it is. A pause ends when the caller
/// reports it completed, and with nothing else. While a request is out, an
/// answer is judged by its status, then by its quota headers, and where the
/// request was a fetch, by its body; an erase that was accepted counts, and
/// the next one is due. The first fault fails the delete, and a local
/// failure fails it too; no erase is due after that.
pub open spec fn delete_next(s: DeleteView, e: EventView) -> DeleteView {
    match s.status {
        StatusView::Failed { .. } => s,
        StatusView::Pausing { .. } => match e {
            EventView::Completed => s.with_status(StatusView::Active),
            _ => s,
        },
        StatusView::Active => if s.finished() {
            s
        } else {
            match e {
                EventView::Completed => s,
                EventView::LocalFailure => s.failed(TransferError::LocalIo),
                EventView::Answer(response) => match settled(response) {
                    Err(error) => s.failed(error),
                    Ok(wait) => delete_accepted(s, response, wait),
                },
            }
        },
    }
}

impl Delete {
    #[verifier::type_invariant]
    spec fn inv(self) -> bool {
        self@.wf()
    }

    /// Begins the delete of the file whose index the message `mid` holds.
    pub fn new(mid: u64) -> (r: Delete)
        ensures
            r@ == delete_start(mid),
            r@.wf(),
    {
        Delete {
            mid,
            locator: None,
            index: None,
            erased: 0,
            index_erased: false,
            status: Status::Active,
        }
    }

    /// The action that is due.
    pub fn action(&self) -> (r: DeleteAction)
        ensures
            r@ == delete_action(self@),
            self@.wf(),
    {
        proof {
            use_type_invariant(self);
        }
        match &self.status {
            Status::Failed { error, part } => DeleteAction::Fail { error: *error, part: *part },
            Status::Pausing { reset_after } => DeleteAction::Pause {
                reset_after: reset_after.clone(),
            },
            Status::Active => match (&self.locator, &self.index) {
                (None, _) => DeleteAction::Lookup { mid: self.mid },
                (Some(url), None) => DeleteAction::FetchIndex { url: url.clone() },
                (Some(_), Some(index)) => {
                    if self.erased < index.parts.len() {
                        DeleteAction::ErasePart {
                            remote_id: index.parts[self.erased].remote_id,
                            sequence: self.erased as u64,
                            total: index.parts.len() as u64,
                        }
                    } else if !self.index_erased {
                        DeleteAction::EraseIndex { remote_id: self.mid }
                    } else {
                        DeleteAction::Finish
                    }
                },
            },
        }
    }
}

/// Moves a delete on by one event: the result is the state that follows,
/// and it is again a state that a delete can be in.
pub fn delete(state: Delete, event: Event) -> (r: Delete)
    ensures
        r@ == delete_next(state@, event@),
        r@.wf(),
{
    proof {
        use_type_invariant(&state);
    }
    let Delete { mid, locator, index, erased, index_erased, status } = state;
    match status {
        Status::Failed { error, part } => Delete {
            mid,
            locator,
            index,
            erased,
            index_erased,
            status: Status::Failed { error, part },
        },
        Status::Pausing { reset_after } => match event {
            Event::Completed => Delete {
                mid,
                locator,
                index,
                erased,
                index_erased,
                status: Status::Active,
            },
            _ => Delete {
                mid,
                locator,
                index,
                erased,
                index_erased,
                status: Status::Pausing { reset_after },
            },
        },
        Status::Active => {
            if index.is_some() && index_erased {
                return Delete { mid, locator, index, erased, index_erased, status: Status::Active };
            }
            let pending: Option<u64> = match &index {
                Some(found) => if erased < found.parts.len() {
                    Some(erased as u64)
                } else {
                    None
                },
                None => None,
            };
            let accepted: Result<(Response, Option<String>), TransferError> = match event {
                Event::Completed => {
                    return Delete {
                        mid,
                        locator,
                        index,
                        erased,
                        index_erased,
                        status: Status::Active,
                    };
                },
                Event::LocalFailure => Err(TransferError::LocalIo),
                Event::Answer(response) => match response.settle() {
                    Err(error) => Err(error),
                    Ok(wait) => Ok((response, wait)),
                },
            };
            match accepted {
                Err(error) => Delete {
                    mid,
                    locator,
                    index,
                    erased,
                    index_erased,
                    status: Status::Failed { error, part: pending },
                },
                Ok((response, wait)) => match (locator, index) {
                    (None, index) => match DiscordMessage::parse(response.body.as_str()) {
                        Err(error) => Delete {
                            mid,
                            locator: None,
                            index,
                            erased,
                            index_erased,
                            status: Status::Failed { error, part: pending },
                        },
                        Ok(message) => Delete {
                            mid,
                            locator: Some(message.attachment.url),
                            index,
                            erased,
                            index_erased,
                            status: pace(wait),
                        },
                    },
                    (Some(url), None) => match Index::deserialize(response.body.as_str()) {
                        Err(error) => Delete {
                            mid,
                            locator: Some(url),
                            index: None,
                            erased,
                            index_erased,
                            status: Status::Failed { error, part: pending },
                        },
                        Ok(found) => {
                            proof {
                                lemma_decoded_is_valid(toml_document(response.body@).unwrap());
                            }
                            Delete {
                                mid,
                                locator: Some(url),
                                index: Some(found),
                                erased,
                                index_erased,
                                status: pace(wait),
                            }
                        },
                    },
                    (Some(url), Some(found)) => {
                        if erased < found.parts.len() {
                            Delete {
                                mid,
                                locator: Some(url),
                                index: Some(found),
                                erased: erased + 1,
                                index_erased,
                                status: pace(wait),
                            }
                        } else {
                            Delete {
                                mid,
                                locator: Some(url),
                                index: Some(found),
                                erased,
                                index_erased: true,
                                status: pace(wait),
                            }
                        }
                    },
                },
            }
        },
    }
}

} // verus!
