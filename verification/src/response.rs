//! What a request is answered with: the status, and the head of a
//! successful response.

use vstd::prelude::*;
use crate::info::ContentFileInfo;
use crate::text::append;

verus! {

/// The status of a response that carries the file.
pub const STATUS_OK: u16 = 200;

/// The status of a request whose keystamp is not accepted.
pub const STATUS_FORBIDDEN: u16 = 403;

/// The status of a request whose file cannot be had.
pub const STATUS_NOT_FOUND: u16 = 404;

/// Why a request gets no file.
#[derive(Clone, Copy, Debug, PartialEq, Eq)]
pub enum Failure {
    /// The keystamp is malformed, expired, or does not match.
    Keystamp,
    /// The file identifier cannot be read.
    FileId,
    /// The resolver named no upstream source.
    Resolver,
    /// The download ended before its temporary file was published.
    TempPath,
    /// The download ended before its first byte.
    NoFirstByte,
}

/// The status that a failure is answered with: "forbidden" for the
/// keystamp, "not found" for everything else.
pub open spec fn status_of(failure: Failure) -> u16 {
    match failure {
        Failure::Keystamp => STATUS_FORBIDDEN,
        _ => STATUS_NOT_FOUND,
    }
}

/// The status that a failure is answered with.
pub fn failure_status(failure: Failure) -> (status: u16)
    ensures
        status == status_of(failure),
{
    match failure {
        Failure::Keystamp => STATUS_FORBIDDEN,
        _ => STATUS_NOT_FOUND,
    }
}

/// The bytes `public, max-age=31536000`: the file may be cached by anyone
/// for a year.
pub open spec fn cache_control_value() -> Seq<u8> {
    seq![
        0x70u8, 0x75, 0x62, 0x6c, 0x69, 0x63, 0x2c, 0x20, 0x6d, 0x61, 0x78, 0x2d,
        0x61, 0x67, 0x65, 0x3d, 0x33, 0x31, 0x35, 0x33, 0x36, 0x30, 0x30, 0x30,
    ]
}

/// The bytes `inline; filename="`, which open the content disposition.
pub open spec fn disposition_opening() -> Seq<u8> {
    seq![
        0x69u8, 0x6e, 0x6c, 0x69, 0x6e, 0x65, 0x3b, 0x20, 0x66, 0x69, 0x6c, 0x65,
        0x6e, 0x61, 0x6d, 0x65, 0x3d, 0x22,
    ]
}

/// The content disposition of a file served under `filename`:
/// `inline; filename="<filename>"`.
pub open spec fn content_disposition_value(filename: Seq<u8>) -> Seq<u8> {
    disposition_opening() + filename + seq![0x22u8]
}

/// The value of the `Cache-Control` header of every successful response.
pub fn cache_control() -> (value: Vec<u8>)
    ensures
        value@ == cache_control_value(),
{
    let text: [u8; 24] = [
        0x70, 0x75, 0x62, 0x6c, 0x69, 0x63, 0x2c, 0x20, 0x6d, 0x61, 0x78, 0x2d,
        0x61, 0x67, 0x65, 0x3d, 0x33, 0x31, 0x35, 0x33, 0x36, 0x30, 0x30, 0x30,
    ];
    let mut value: Vec<u8> = Vec::new();
    append(&mut value, text.as_slice());
    assert(value@ =~= cache_control_value());
    value
}

/// The value of the `Content-Disposition` header of a file served under
/// `filename`.
pub fn content_disposition(filename: &[u8]) -> (value: Vec<u8>)
    ensures
        value@ == content_disposition_value(filename@),
{
    let opening: [u8; 18] = [
        0x69, 0x6e, 0x6c, 0x69, 0x6e, 0x65, 0x3b, 0x20, 0x66, 0x69, 0x6c, 0x65,
        0x6e, 0x61, 0x6d, 0x65, 0x3d, 0x22,
    ];
    let mut value: Vec<u8> = Vec::new();
    append(&mut value, opening.as_slice());
    assert(value@ =~= disposition_opening());
    append(&mut value, filename);
    value.push(0x22);
    value
}

/// The head of the response that streams a file.
pub struct ResponseHead {
    /// `Content-Type`: the declared mime type.
    pub content_type: Vec<u8>,
    /// `Content-Length`: the declared size.
    pub content_length: u64,
    /// `Cache-Control`.
    pub cache_control: Vec<u8>,
    /// `Content-Disposition`.
    pub content_disposition: Vec<u8>,
}

/// The head of the response that streams the file declared by `info` under
/// `filename`.
pub fn stream_head(info: &ContentFileInfo, filename: &[u8]) -> (head: ResponseHead)
    ensures
        head.content_type@ == info@.mime_type,
        head.content_length == info@.size,
        head.cache_control@ == cache_control_value(),
        head.content_disposition@ == content_disposition_value(filename@),
{
    let mut content_type: Vec<u8> = Vec::new();
    append(&mut content_type, info.mime_type());
    ResponseHead {
        content_type,
        content_length: info.size(),
        cache_control: cache_control(),
        content_disposition: content_disposition(filename),
    }
}

} // verus!
