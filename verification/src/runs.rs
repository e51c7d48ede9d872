//! What holds of whole runs of the three operations, whatever the remote
//! host answers and whatever the caller reports.

use crate::chunks::{chunk_count, chunk_length, chunk_offset, lemma_chunk_coverage};
use crate::commands::{
    chunk_name, delete_action, delete_next, download_action, download_next, paced, upload_action,
    upload_next, DeleteActionView, DeleteView, DownloadActionView, DownloadView, EventView,
    StatusView, UploadActionView, UploadView,
};
use crate::discord::{pacing, settled, ResponseView};
use crate::error::TransferError;
use crate::index::{checked_text, decoded, index_node, lemma_decoded_is_valid, IndexView};
use crate::toml_format::{toml_document, toml_text};
use vstd::prelude::*;

verus! {

/// An upload stays an upload: every event leads from a state that an upload
/// can be in to another such state.
pub proof fn lemma_upload_stays_well_formed(s: UploadView, e: EventView)
    requires
        s.wf(),
    ensures
        upload_next(s, e).wf(),
{
    lemma_chunk_coverage(s.size as nat, s.chunk_bytes as nat);
}

/// Chunk coverage: once an upload has the text of its index, exactly as many
/// chunks are stored as the file has, which is at least one; they are
/// numbered from zero in order; and the text is that of the index that
/// lists exactly them, under the file's name and size, and reads back as
/// that index.
pub proof fn lemma_upload_index_is_complete(s: UploadView)
    requires
        s.wf(),
        s.manifest is Some,
    ensures
        s.parts.len() == chunk_count(s.size as nat, s.chunk_bytes as nat),
        s.parts.len() >= 1,
        s.index().valid(),
        s.index().size == s.size,
        toml_text(index_node(s.index())) == s.manifest,
        checked_text(s.index()) == s.manifest,
        decoded(toml_document(s.manifest.unwrap())) == Ok::<IndexView, TransferError>(s.index()),
{
    lemma_chunk_coverage(s.size as nat, s.chunk_bytes as nat);
}

/// An upload asks for a request: it has one object stored.
pub open spec fn upload_requests(action: UploadActionView) -> bool {
    action is StoreChunk || action is StoreIndex
}

/// Rate-limit gating, upload: after an answer whose quota headers ask for a
/// wait, no request is due, whatever the state was; and while an upload
/// pauses, the pause is due with the wait that the answer gave, nothing but
/// its completion changes the state, and its completion makes the upload
/// active again.
pub proof fn lemma_upload_waits(s: UploadView, e: EventView)
    ensures
        match e {
            EventView::Answer(response) => pacing(response.remaining, response.reset_after)
                matches Ok(Some(_)) ==> !upload_requests(upload_action(upload_next(s, e))),
            _ => true,
        },
        match s.status {
            StatusView::Pausing { reset_after } => upload_action(s) == (UploadActionView::Pause { reset_after })
                && (if e is Completed {
                upload_next(s, e) == s.with_status(StatusView::Active)
            } else {
                upload_next(s, e) == s
            }),
            _ => true,
        },
{
}

/// The state of an upload after the caller has reported `events`, one after
/// the other.
pub open spec fn upload_run(s: UploadView, events: Seq<EventView>) -> UploadView
    decreases events.len(),
{
    if events.len() == 0 {
        s
    } else {
        upload_run(upload_next(s, events[0]), events.drop_first())
    }
}

/// The store requests that were sent in the course of `events`, in their
/// order: a request was sent wherever one was due and the caller reports an
/// answer.
pub open spec fn store_calls(s: UploadView, events: Seq<EventView>) -> Seq<UploadActionView>
    decreases events.len(),
{
    if events.len() == 0 {
        Seq::empty()
    } else {
        let rest = store_calls(upload_next(s, events[0]), events.drop_first());
        if upload_requests(upload_action(s)) && events[0] is Answer {
            seq![upload_action(s)] + rest
        } else {
            rest
        }
    }
}

/// The number of store requests that were accepted so far.
pub open spec fn store_count(s: UploadView) -> nat {
    s.parts.len() + if s.handle is Some {
        1nat
    } else {
        0nat
    }
}

/// The store request numbered `k` of a whole upload is what it has to be:
/// for a chunk, the request for the chunk numbered `k`, under its name and
/// with its window of the file; after the last chunk, the request for the
/// index.
pub open spec fn store_in_place(s: UploadView, call: UploadActionView, k: int) -> bool {
    if 0 <= k < s.total() {
        call == (UploadActionView::StoreChunk {
            filename: chunk_name(k as u64),
            offset: chunk_offset(s.chunk_bytes as nat, k as nat) as u64,
            length: chunk_length(s.size as nat, s.chunk_bytes as nat, k as nat) as u64,
        })
    } else {
        call is StoreIndex
    }
}

/// Chunk coverage over a whole run. Take any state of an upload and any
/// events. Then the store requests sent in the run go on where the state
/// stood: one for each chunk of the file in the order of the numbers, each
/// for its own window, and then one for the index; never more than that and
/// none twice; an upload that has failed sends none; and a run that ends
/// finished has sent every one of them.
pub proof fn lemma_store_completeness(s: UploadView, events: Seq<EventView>)
    requires
        s.wf(),
    ensures
        s.status is Failed ==> store_calls(s, events).len() == 0,
        store_count(s) + store_calls(s, events).len() <= s.total() + 1,
        forall|j: int|
            0 <= j < store_calls(s, events).len() ==> store_in_place(
                s,
                #[trigger] store_calls(s, events)[j],
                store_count(s) + j,
            ),
        upload_run(s, events).finished() ==> store_count(s) + store_calls(s, events).len()
            == s.total() + 1,
    decreases events.len(),
{
    lemma_chunk_coverage(s.size as nat, s.chunk_bytes as nat);
    if events.len() > 0 {
        let next = upload_next(s, events[0]);
        let rest = events.drop_first();
        lemma_upload_stays_well_formed(s, events[0]);
        lemma_store_completeness(next, rest);
        let later = store_calls(next, rest);
        let calls = store_calls(s, events);
        assert(next.total() == s.total());
        if upload_requests(upload_action(s)) && events[0] is Answer {
            assert(calls == seq![upload_action(s)] + later);
            assert(store_in_place(s, upload_action(s), store_count(s) as int));
            assert forall|j: int| 0 <= j < calls.len() implies store_in_place(
                s,
                #[trigger] calls[j],
                store_count(s) + j,
            ) by {
                if j > 0 {
                    assert(calls[j] == later[j - 1]);
                    assert(store_in_place(next, later[j - 1], store_count(next) + (j - 1)));
                }
            }
        } else {
            assert(calls == later);
            assert forall|j: int| 0 <= j < calls.len() implies store_in_place(
                s,
                #[trigger] calls[j],
                store_count(s) + j,
            ) by {
                assert(store_in_place(next, later[j], store_count(next) + j));
            }
        }
    }
}

/// A download stays a download.
pub proof fn lemma_download_stays_well_formed(s: DownloadView, e: EventView)
    requires
        s.wf(),
    ensures
        download_next(s, e).wf(),
{
    if s.status is Active && s.index is None {
        if let EventView::Answer(response) = e {
            if let Some(node) = toml_document(response.body) {
                lemma_decoded_is_valid(node);
            }
        }
    }
}

/// A download asks for a request.
pub open spec fn download_requests(action: DownloadActionView) -> bool {
    action is FetchIndex || action is FetchPart
}

/// Order of the parts: while a download is active with `k` parts written
/// and more to come, the part numbered `k` is due, from the address that the
/// index lists for it; an answer that is accepted makes it `k + 1` parts;
/// any other answer and a local failure fail the download at part `k`,
/// and nothing else changes the state. When as many are written as the
/// index lists, the download is finished.
pub proof fn lemma_download_in_order(s: DownloadView, e: EventView)
    requires
        s.wf(),
        s.status is Active,
        s.ready,
    ensures
        s.index is Some,
        ({
            let index = s.index.unwrap();
            if s.fetched < index.parts.len() {
            &&& download_action(s) == (DownloadActionView::FetchPart {
                url: index.parts[s.fetched as int].remote_locator,
                sequence: s.fetched as u64,
                total: index.parts.len() as u64,
            })
            &&& index.parts[s.fetched as int].sequence == s.fetched
            &&& match e {
                EventView::Answer(response) => match settled(response) {
                    Ok(wait) => download_next(s, e) == (DownloadView {
                        fetched: s.fetched + 1,
                        status: paced(wait),
                        ..s
                    }),
                    Err(error) => download_next(s, e) == s.with_status(
                        StatusView::Failed { error, part: Some(s.fetched as u64) },
                    ),
                },
                EventView::LocalFailure => download_next(s, e).status is Failed,
                EventView::Completed => download_next(s, e) == s,
            }
            } else {
                download_action(s) == DownloadActionView::Finish && download_next(s, e) == s
            }
        }),
{
}

/// Round trip from upload to download: the text that an upload hands out
/// for its index, fetched as it is by a download that waits for its index
/// with an answer that is accepted, gives the download exactly the index
/// that the upload wrote: the same name, the same size, and the same parts
/// in the same order.
pub proof fn lemma_download_reads_what_upload_wrote(
    up: UploadView,
    down: DownloadView,
    response: ResponseView,
)
    requires
        up.wf(),
        up.manifest == Some(response.body),
        down.status is Active,
        down.index is None,
        settled(response) is Ok,
    ensures
        download_next(down, EventView::Answer(response)).index == Some(up.index()),
        up.index().valid(),
{
    lemma_upload_index_is_complete(up);
}

/// The state of a download after the caller has reported `events`, one
/// after the other.
pub open spec fn download_run(s: DownloadView, events: Seq<EventView>) -> DownloadView
    decreases events.len(),
{
    if events.len() == 0 {
        s
    } else {
        download_run(download_next(s, events[0]), events.drop_first())
    }
}

/// The addresses from which a part was fetched in the course of `events`,
/// in the order of the requests: a request was sent wherever a part was due
/// and the caller reports an answer.
pub open spec fn fetch_calls(s: DownloadView, events: Seq<EventView>) -> Seq<Seq<char>>
    decreases events.len(),
{
    if events.len() == 0 {
        Seq::empty()
    } else {
        let rest = fetch_calls(download_next(s, events[0]), events.drop_first());
        match (download_action(s), events[0]) {
            (DownloadActionView::FetchPart { url, .. }, EventView::Answer(_)) => seq![url] + rest,
            _ => rest,
        }
    }
}

/// Order preservation over a whole run. Take any state of a download and
/// any events, and let the run end with the index `index` fetched. Then the
/// parts fetched in the run go on where the state stood, in the order of
/// the index, each from the address that the index lists for it, none
/// twice and none left out between; a download that has failed fetches
/// none; and a run that ends finished has fetched every part.
pub proof fn lemma_fetch_order(s: DownloadView, events: Seq<EventView>, index: IndexView)
    requires
        s.wf(),
        download_run(s, events).index == Some(index),
    ensures
        s.index is Some ==> s.index == Some(index),
        s.status is Failed ==> fetch_calls(s, events).len() == 0,
        s.fetched + fetch_calls(s, events).len() <= index.parts.len(),
        forall|j: int|
            0 <= j < fetch_calls(s, events).len() ==> #[trigger] fetch_calls(s, events)[j]
                == index.parts[s.fetched + j].remote_locator,
        download_run(s, events).finished() ==> s.fetched + fetch_calls(s, events).len()
            == index.parts.len(),
    decreases events.len(),
{
    if events.len() > 0 {
        let next = download_next(s, events[0]);
        let rest = events.drop_first();
        lemma_download_stays_well_formed(s, events[0]);
        lemma_fetch_order(next, rest, index);
        let later = fetch_calls(next, rest);
        let calls = fetch_calls(s, events);
        match (download_action(s), events[0]) {
            (DownloadActionView::FetchPart { url, .. }, EventView::Answer(_)) => {
                assert(calls == seq![url] + later);
                assert forall|j: int| 0 <= j < calls.len() implies #[trigger] calls[j]
                    == index.parts[s.fetched + j].remote_locator by {
                    if j > 0 {
                        assert(calls[j] == later[j - 1]);
                    }
                }
            },
            _ => {
                assert(calls == later);
            },
        }
    }
}

/// Rate-limit gating, download.
pub proof fn lemma_download_waits(s: DownloadView, e: EventView)
    ensures
        match e {
            EventView::Answer(response) => pacing(response.remaining, response.reset_after)
                matches Ok(Some(_)) ==> !download_requests(download_action(download_next(s, e))),
            _ => true,
        },
        match s.status {
            StatusView::Pausing { reset_after } => download_action(s) == (DownloadActionView::Pause { reset_after })
                && (if e is Completed {
                download_next(s, e) == s.with_status(StatusView::Active)
            } else {
                download_next(s, e) == s
            }),
            _ => true,
        },
{
}

/// A delete stays a delete.
pub proof fn lemma_delete_stays_well_formed(s: DeleteView, e: EventView)
    requires
        s.wf(),
    ensures
        delete_next(s, e).wf(),
        delete_next(s, e).mid == s.mid,
        s.index is Some ==> delete_next(s, e).index == s.index,
{
    if s.status is Active && s.index is None && s.locator is Some {
        if let EventView::Answer(response) = e {
            if let Some(node) = toml_document(response.body) {
                lemma_decoded_is_valid(node);
            }
        }
    }
}

/// A delete asks for a request.
pub open spec fn delete_requests(action: DeleteActionView) -> bool {
    action is Lookup || action is FetchIndex || action is ErasePart || action is EraseIndex
}

/// Rate-limit gating, delete.
pub proof fn lemma_delete_waits(s: DeleteView, e: EventView)
    requires
        s.wf(),
    ensures
        match e {
            EventView::Answer(response) => pacing(response.remaining, response.reset_after)
                matches Ok(Some(_)) ==> !delete_requests(delete_action(delete_next(s, e))),
            _ => true,
        },
        match s.status {
            StatusView::Pausing { reset_after } => delete_action(s) == (DeleteActionView::Pause { reset_after })
                && (if e is Completed {
                delete_next(s, e) == s.with_status(StatusView::Active)
            } else {
                delete_next(s, e) == s
            }),
            _ => true,
        },
{
}

/// The message that an erase request names, for an action that is one.
pub open spec fn erased_message(action: DeleteActionView) -> Option<u64> {
    match action {
        DeleteActionView::ErasePart { remote_id, .. } => Some(remote_id),
        DeleteActionView::EraseIndex { remote_id } => Some(remote_id),
        _ => None,
    }
}

/// The state of a delete after the caller has reported `events`, one after
/// the other.
pub open spec fn delete_run(s: DeleteView, events: Seq<EventView>) -> DeleteView
    decreases events.len(),
{
    if events.len() == 0 {
        s
    } else {
        delete_run(delete_next(s, events[0]), events.drop_first())
    }
}

/// The messages for which an erase request was sent in the course of
/// `events`, in the order of the requests: a request was sent wherever an
/// erase was due and the caller reports an answer.
pub open spec fn erase_calls(s: DeleteView, events: Seq<EventView>) -> Seq<u64>
    decreases events.len(),
{
    if events.len() == 0 {
        Seq::empty()
    } else {
        let rest = erase_calls(delete_next(s, events[0]), events.drop_first());
        match (erased_message(delete_action(s)), events[0]) {
            (Some(message), EventView::Answer(_)) => seq![message] + rest,
            _ => rest,
        }
    }
}

/// The message that the erase request numbered `k` of a whole delete names:
/// that of part `k`, and after the last part that of the index.
pub open spec fn erase_target(index: IndexView, mid: u64, k: int) -> u64 {
    if 0 <= k < index.parts.len() {
        index.parts[k].remote_id
    } else {
        mid
    }
}

/// The number of erase requests that were accepted so far.
pub open spec fn erase_count(s: DeleteView) -> nat {
    s.erased + if s.index_erased {
        1nat
    } else {
        0nat
    }
}

/// Erase completeness. Take any state of a delete and any events, and let
/// the run end with the index `index` fetched. Then the erase requests sent
/// in the run go on where the state stood, one for each part in the order
/// of the index and then one for the index itself, never more than that
/// and none twice; a delete that has failed sends none; and a run that ends
/// finished has sent every one of them.
pub proof fn lemma_erase_completeness(s: DeleteView, events: Seq<EventView>, index: IndexView)
    requires
        s.wf(),
        delete_run(s, events).index == Some(index),
    ensures
        s.index is Some ==> s.index == Some(index),
        s.status is Failed ==> erase_calls(s, events).len() == 0,
        erase_count(s) + erase_calls(s, events).len() <= index.parts.len() + 1,
        forall|j: int|
            0 <= j < erase_calls(s, events).len() ==> #[trigger] erase_calls(s, events)[j]
                == erase_target(index, s.mid, erase_count(s) + j),
        delete_run(s, events).finished() ==> erase_count(s) + erase_calls(s, events).len()
            == index.parts.len() + 1,
    decreases events.len(),
{
    if events.len() > 0 {
        let next = delete_next(s, events[0]);
        let rest = events.drop_first();
        lemma_delete_stays_well_formed(s, events[0]);
        lemma_erase_completeness(next, rest, index);
        let later = erase_calls(next, rest);
        let calls = erase_calls(s, events);
        match (erased_message(delete_action(s)), events[0]) {
            (Some(message), EventView::Answer(response)) => {
                assert(calls == seq![message] + later);
                assert(message == erase_target(index, s.mid, erase_count(s) as int));
                assert forall|j: int| 0 <= j < calls.len() implies #[trigger] calls[j]
                    == erase_target(index, s.mid, erase_count(s) + j) by {
                    if j > 0 {
                        assert(calls[j] == later[j - 1]);
                    }
                }
            },
            _ => {
                assert(calls == later);
            },
        }
    }
}

} // verus!
