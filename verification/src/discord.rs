//! The remote host: what is asked of it, and what its answers mean.
//!
//! Every operation is one round trip. This module says which request to
//! send and reads the answer that came back; sending is left to the caller.

use crate::decimal::{decimal, parse_u64, parsed_u64, push_decimal};
use crate::document::{Node, NodeView};
use crate::error::TransferError;
use crate::json_format::{json_document, node_of_json, read_json};
use crate::multipart::{framing, multipart, Multipart, MultipartView};
use vstd::prelude::*;
use vstd::string::*;

verus! {

/// The one file that a message of the remote host carries.
#[derive(Debug)]
pub struct Attachment {
    /// The address from which the file's bytes are fetched.
    pub url: String,
}

/// A message of the remote host: the object that one store request made.
#[derive(Debug)]
pub struct DiscordMessage {
    /// The key under which the message is erased.
    pub id: u64,
    /// The message's single attachment.
    pub attachment: Attachment,
}

/// The mathematical content of a [`DiscordMessage`].
pub struct MessageView {
    pub id: u64,
    pub url: Seq<char>,
}

impl View for DiscordMessage {
    type V = MessageView;

    open spec fn view(&self) -> MessageView {
        MessageView { id: self.id, url: self.attachment.url@ }
    }
}

/// The name under which a message holds its identifier.
pub open spec fn key_id() -> Seq<char> {
    "id"@
}

/// The name under which a message holds its list of attachments.
pub open spec fn key_attachments() -> Seq<char> {
    "attachments"@
}

/// The name under which an attachment holds its address.
pub open spec fn key_url() -> Seq<char> {
    "url"@
}

/// The message that a document holds: a table with an identifier, written as
/// a number or as a numeral in a string, and a list of exactly one
/// attachment, which is a table with an address that is a string.
pub open spec fn node_message(node: NodeView) -> Option<MessageView> {
    match (node.field(key_id()), node.field(key_attachments())) {
        (Some(id), Some(attachments)) => match (id.number(), attachments.items()) {
            (Some(id), Some(items)) => if items.len() == 1 {
                match items[0].field(key_url()) {
                    Some(url) => match url.text() {
                        Some(url) => Some(MessageView { id, url }),
                        None => None,
                    },
                    None => None,
                }
            } else {
                None
            },
            _ => None,
        },
        _ => None,
    }
}

/// What reading a message from the body of an answer gives.
pub open spec fn message_of(document: Option<NodeView>) -> Result<MessageView, TransferError> {
    match document {
        Some(node) => match node_message(node) {
            Some(message) => Ok(message),
            None => Err(TransferError::MalformedRemoteResponse),
        },
        None => Err(TransferError::MalformedRemoteResponse),
    }
}

/// The only item of a list, if it has exactly one.
pub fn singleton<'a>(items: &'a Vec<Node>) -> (r: Option<&'a Node>)
    ensures
        match r {
            Some(item) => items@.len() == 1 && *item == items@[0],
            None => items@.len() != 1,
        },
{
    if items.len() == 1 {
        Some(&items[0])
    } else {
        None
    }
}

/// Reads an identifier from a document node. The remote host writes
/// identifiers as strings; a number is taken as well.
pub fn deserialize(node: &Node) -> (r: Result<u64, TransferError>)
    ensures
        match r {
            Ok(id) => node@.number() == Some(id),
            Err(e) => node@.number() is None && e == TransferError::MalformedRemoteResponse,
        },
{
    match node.as_u64() {
        Some(id) => Ok(id),
        None => Err(TransferError::MalformedRemoteResponse),
    }
}

impl DiscordMessage {
    /// Reads the message that a document holds. Fails with
    /// `MalformedRemoteResponse` exactly when the document holds none.
    pub fn from_node(node: &Node) -> (r: Result<DiscordMessage, TransferError>)
        ensures
            match r {
                Ok(message) => node_message(node@) == Some(message@),
                Err(e) => node_message(node@) is None && e
                    == TransferError::MalformedRemoteResponse,
            },
    {
        let id = match node.get(&"id".to_owned()) {
            Some(found) => deserialize(found),
            None => Err(TransferError::MalformedRemoteResponse),
        };
        let items = match node.get(&"attachments".to_owned()) {
            Some(found) => found.as_list(),
            None => None,
        };
        match (id, items) {
            (Ok(id), Some(items)) => {
                let url = match singleton(items) {
                    Some(only) => match only.get(&"url".to_owned()) {
                        Some(found) => found.as_text(),
                        None => None,
                    },
                    None => None,
                };
                match url {
                    Some(url) => Ok(DiscordMessage { id, attachment: Attachment { url: url.clone() } }),
                    None => Err(TransferError::MalformedRemoteResponse),
                }
            },
            _ => Err(TransferError::MalformedRemoteResponse),
        }
    }

    /// Reads a message from the body of an answer. Fails with
    /// `MalformedRemoteResponse` where the body is no JSON text or holds no
    /// message.
    pub fn parse(body: &str) -> (r: Result<DiscordMessage, TransferError>)
        ensures
            match r {
                Ok(message) => message_of(json_document(body@)) == Ok::<
                    MessageView,
                    TransferError,
                >(message@),
                Err(e) => message_of(json_document(body@)) == Err::<MessageView, TransferError>(e),
            },
    {
        match read_json(body) {
            Ok(value) => {
                let node = node_of_json(&value);
                DiscordMessage::from_node(&node)
            },
            Err(_) => Err(TransferError::MalformedRemoteResponse),
        }
    }
}

/// What the remote host answered to one request, as far as the library
/// reads it.
#[derive(Debug)]
pub struct Response {
    /// The status code.
    pub status: u16,
    /// The value of the `X-RateLimit-Remaining` header, if the answer has one.
    pub remaining: Option<String>,
    /// The value of the `X-RateLimit-Reset-After` header, if the answer has one.
    pub reset_after: Option<String>,
    /// The body as text, where the request was one whose answer is read;
    /// empty otherwise.
    pub body: String,
}

/// The mathematical content of a [`Response`].
pub struct ResponseView {
    pub status: u16,
    pub remaining: Option<Seq<char>>,
    pub reset_after: Option<Seq<char>>,
    pub body: Seq<char>,
}

/// The content of a header value that may be missing.
pub open spec fn header_view(header: Option<String>) -> Option<Seq<char>> {
    match header {
        Some(value) => Some(value@),
        None => None,
    }
}

impl View for Response {
    type V = ResponseView;

    open spec fn view(&self) -> ResponseView {
        ResponseView {
            status: self.status,
            remaining: header_view(self.remaining),
            reset_after: header_view(self.reset_after),
            body: self.body@,
        }
    }
}

/// What the quota headers of an answer ask for: `Ok(None)` to go on at once,
/// `Ok(Some(t))` to wait first for the seconds that the text `t` gives, and
/// `MissingRateLimitHeaders` where the remaining quota is missing or is no
/// number, or is zero without a time to wait.
pub open spec fn pacing(remaining: Option<Seq<char>>, reset_after: Option<Seq<char>>) -> Result<
    Option<Seq<char>>,
    TransferError,
> {
    match remaining {
        Some(text) => match parsed_u64(text) {
            Some(quota) => if quota == 0 {
                match reset_after {
                    Some(wait) => Ok(Some(wait)),
                    None => Err(TransferError::MissingRateLimitHeaders),
                }
            } else {
                Ok(None)
            },
            None => Err(TransferError::MissingRateLimitHeaders),
        },
        None => Err(TransferError::MissingRateLimitHeaders),
    }
}

/// What an answer means before its body is read: `RemoteRequestFailed` for a
/// status outside `200..=299`, else what its quota headers ask for.
pub open spec fn settled(response: ResponseView) -> Result<Option<Seq<char>>, TransferError> {
    if 200 <= response.status < 300 {
        pacing(response.remaining, response.reset_after)
    } else {
        Err(TransferError::RemoteRequestFailed { status: response.status })
    }
}

/// The content of a wait that may be absent.
pub open spec fn wait_view(wait: Result<Option<String>, TransferError>) -> Result<
    Option<Seq<char>>,
    TransferError,
> {
    match wait {
        Ok(Some(text)) => Ok(Some(text@)),
        Ok(None) => Ok(None),
        Err(e) => Err(e),
    }
}

/// Reads the quota headers of an answer: whether the next request may go
/// out at once, or only after a wait. The wait is handed on as the header
/// gave it; the caller sleeps.
pub fn cool_ratelimit(resp: &Response) -> (r: Result<Option<String>, TransferError>)
    ensures
        wait_view(r) == pacing(resp@.remaining, resp@.reset_after),
{
    match &resp.remaining {
        Some(text) => match parse_u64(text.as_str()) {
            Some(quota) => {
                if quota == 0 {
                    match &resp.reset_after {
                        Some(wait) => Ok(Some(wait.clone())),
                        None => Err(TransferError::MissingRateLimitHeaders),
                    }
                } else {
                    Ok(None)
                }
            },
            None => Err(TransferError::MissingRateLimitHeaders),
        },
        None => Err(TransferError::MissingRateLimitHeaders),
    }
}

impl Response {
    /// Judges an answer before its body is read: the status first, then the
    /// quota headers.
    pub fn settle(&self) -> (r: Result<Option<String>, TransferError>)
        ensures
            wait_view(r) == settled(self@),
    {
        if 200 <= self.status && self.status < 300 {
            cool_ratelimit(self)
        } else {
            Err(TransferError::RemoteRequestFailed { status: self.status })
        }
    }
}

/// One request to the remote host.
#[derive(Debug)]
pub enum Request {
    /// Store an object: the body is `framing.head`, the payload and
    /// `framing.tail`, sent with `framing.content_type`.
    Post { url: String, framing: Multipart },
    /// Fetch what `url` holds.
    Get { url: String },
    /// Erase what `url` names.
    Delete { url: String },
}

/// The mathematical content of a [`Request`].
pub enum RequestView {
    Post { url: Seq<char>, framing: MultipartView },
    Get { url: Seq<char> },
    Delete { url: Seq<char> },
}

impl View for Request {
    type V = RequestView;

    open spec fn view(&self) -> RequestView {
        match self {
            Request::Post { url, framing } => RequestView::Post { url: url@, framing: framing@ },
            Request::Get { url } => RequestView::Get { url: url@ },
            Request::Delete { url } => RequestView::Delete { url: url@ },
        }
    }
}

/// The address of the message `mid` at the endpoint `webhook`.
pub open spec fn message_url(webhook: Seq<char>, mid: u64) -> Seq<char> {
    webhook + "/messages/"@ + decimal(mid as nat)
}

/// Writes the address of the message `mid` at the endpoint `webhook`.
fn message_address(mid: u64, webhook: &str) -> (r: String)
    ensures
        r@ == message_url(webhook@, mid),
{
    let mut url = webhook.to_owned();
    url.append("/messages/");
    push_decimal(&mut url, mid);
    url
}

/// The request that stores a payload under the display name `filename` at
/// the endpoint `webhook`: a post to the endpoint itself, in the framing of
/// that name for some boundary.
pub fn upload(filename: &str, webhook: &str) -> (r: Request)
    ensures
        exists|boundary: u64|
            r@ == (RequestView::Post {
                url: webhook@,
                framing: #[trigger] framing(boundary, filename@),
            }),
{
    let framing = multipart(filename);
    Request::Post { url: webhook.to_owned(), framing }
}

/// The request that erases the message `mid` at the endpoint `webhook`.
pub fn delete(mid: u64, webhook: &str) -> (r: Request)
    ensures
        r@ == (RequestView::Delete { url: message_url(webhook@, mid) }),
{
    Request::Delete { url: message_address(mid, webhook) }
}

/// The request that fetches the message `mid` at the endpoint `webhook`.
pub fn lookup(mid: u64, webhook: &str) -> (r: Request)
    ensures
        r@ == (RequestView::Get { url: message_url(webhook@, mid) }),
{
    Request::Get { url: message_address(mid, webhook) }
}

/// The request that fetches what `locator` holds.
pub fn fetch(locator: &str) -> (r: Request)
    ensures
        r@ == (RequestView::Get { url: locator@ }),
{
    Request::Get { url: locator.to_owned() }
}

} // verus!
