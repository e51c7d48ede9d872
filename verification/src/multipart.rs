//! Framing one chunk as the body of an anonymous binary upload.
//!
//! The body of the request is three runs of bytes, one after the other: a
//! head, the chunk's bytes as they are, and a tail. Head and tail are made
//! here; whoever sends the request streams the chunk between them.

use crate::decimal::{decimal, push_decimal};
use vstd::prelude::*;
use vstd::string::*;
use vstd::utf8::encode_utf8;

verus! {

/// The head and tail of a request body, and the value of the `Content-Type`
/// header that goes with them.
#[derive(Debug)]
pub struct Multipart {
    pub content_type: String,
    pub head: Vec<u8>,
    pub tail: Vec<u8>,
}

/// The mathematical content of a [`Multipart`].
pub struct MultipartView {
    pub content_type: Seq<char>,
    pub head: Seq<u8>,
    pub tail: Seq<u8>,
}

impl View for Multipart {
    type V = MultipartView;

    open spec fn view(&self) -> MultipartView {
        MultipartView { content_type: self.content_type@, head: self.head@, tail: self.tail@ }
    }
}

/// The `Content-Type` header value that announces `boundary`.
pub open spec fn content_type_text(boundary: u64) -> Seq<char> {
    "multipart/form-data; boundary="@ + decimal(boundary as nat)
}

/// The text that opens the single `file` field, named `name`.
pub open spec fn head_text(boundary: u64, name: Seq<char>) -> Seq<char> {
    "--"@ + decimal(boundary as nat)
        + "\r\nContent-Disposition: form-data; name=\"file\"; filename=\""@ + name
        + "\"\r\nContent-Type: application/octet-stream\r\n\r\n"@
}

/// The text that closes the field and the body.
pub open spec fn tail_text(boundary: u64) -> Seq<char> {
    "\r\n--"@ + decimal(boundary as nat) + "--\r\n"@
}

/// The framing of a field named `name` with the boundary `boundary`.
pub open spec fn framing(boundary: u64, name: Seq<char>) -> MultipartView {
    MultipartView {
        content_type: content_type_text(boundary),
        head: encode_utf8(head_text(boundary, name)),
        tail: encode_utf8(tail_text(boundary)),
    }
}

/// The whole request body that carries `payload` in this framing.
pub open spec fn body(framing: MultipartView, payload: Seq<u8>) -> Seq<u8> {
    framing.head + payload + framing.tail
}

/// Calls `rand::thread_rng` and `RngCore::next_u64` on it. Nothing is known
/// of the number: two calls may differ. `thread_rng` panics where the
/// operating system gives it no seed.
#[verifier::external_body]
fn random_boundary() -> u64 {
    rand::RngCore::next_u64(&mut rand::thread_rng())
}

/// Frames a field named `name` with the given boundary.
pub fn multipart_with(boundary: u64, name: &str) -> (r: Multipart)
    ensures
        r@ == framing(boundary, name@),
{
    let mut content_type = "multipart/form-data; boundary=".to_owned();
    push_decimal(&mut content_type, boundary);

    let mut head = "--".to_owned();
    push_decimal(&mut head, boundary);
    head.append("\r\nContent-Disposition: form-data; name=\"file\"; filename=\"");
    head.append(name);
    head.append("\"\r\nContent-Type: application/octet-stream\r\n\r\n");

    let mut tail = "\r\n--".to_owned();
    push_decimal(&mut tail, boundary);
    tail.append("--\r\n");

    Multipart {
        content_type,
        head: head.as_str().as_bytes_vec(),
        tail: tail.as_str().as_bytes_vec(),
    }
}

/// Frames a field named `name` with a boundary drawn at random: the result
/// is the framing of that name for some boundary. A random number is taken
/// as enough to keep the boundary out of the payload; that is likely, not
/// certain.
pub fn multipart(name: &str) -> (r: Multipart)
    ensures
        exists|boundary: u64| r@ == #[trigger] framing(boundary, name@),
{
    let boundary = random_boundary();
    multipart_with(boundary, name)
}

} // verus!
