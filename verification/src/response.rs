//! The per-request response: status, headers, and the composed output bytes.

use vstd::prelude::*;

use crate::headers::{wire_chars, Headers};
use crate::status::Status;
use crate::text::{decimal_chars, u64_to_decimal};
use vstd::utf8::encode_utf8;

verus! {

/// A failed write. The library composes responses into an owned buffer, which
/// cannot fail, so its own writers never produce this value; it exists so that
/// a writer backed by a fallible sink can share the [`Writer`] contract.
#[derive(Clone, Copy, PartialEq, Eq, Structural, Debug)]
pub struct WriteError;

/// A writer of one kind of buffer. Each implementation fixes, through
/// `write_ens`, what one `write` call does.
pub trait Writer<T>: Sized {
    /// The relation between the writer before and after `write`, the buffer
    /// written, and the outcome.
    spec fn write_ens(pre: Self, post: Self, buf: T, r: Result<(), WriteError>) -> bool;

    /// Writes one buffer.
    fn write(&mut self, buf: T) -> (r: Result<(), WriteError>)
        ensures
            Self::write_ens(*old(self), *final(self), buf, r),
    ;
}

/// The status line of a response: protocol, numeric code, reason phrase.
pub open spec fn status_line_chars(status: Status) -> Seq<char> {
    "HTTP/1.1 "@ + decimal_chars(status.spec_code()) + " "@ + status.spec_reason()
}

/// The full framed message for a body: status line, header block (absent when
/// no header was set), a `Content-Length` header carrying the byte length of
/// the body, the blank line separating headers from body — exactly one — and
/// the body itself.
pub open spec fn frame_chars(
    status: Status,
    hs: Seq<(Seq<char>, Seq<char>)>,
    body: Seq<char>,
) -> Seq<char> {
    status_line_chars(status) + "\r\n"@ + (if hs.len() == 0 {
        Seq::<char>::empty()
    } else {
        wire_chars(hs) + "\r\n"@
    }) + "Content-Length: "@ + decimal_chars(encode_utf8(body).len() as int) + "\r\n\r\n"@ + body
}

/// A mutable per-request object: a status (OK until replaced), the headers
/// the handler fills, and the bytes composed so far, which the caller sends
/// over its connection once the handler returns.
pub struct Response {
    status: Status,
    headers: Headers,
    out: Vec<u8>,
}

impl Response {
    /// The status this response currently carries.
    pub closed spec fn spec_status(self) -> Status {
        self.status
    }

    /// The headers this response currently carries.
    pub closed spec fn spec_headers(self) -> Headers {
        self.headers
    }

    /// The bytes composed so far.
    pub closed spec fn spec_out(self) -> Seq<u8> {
        self.out@
    }

    /// A response over a fresh set of headers: status OK until `with_status`
    /// replaces it, and no bytes written yet.
    pub fn from_headers(headers: Headers) -> (r: Response)
        ensures
            r.spec_status() == Status::OK,
            r.spec_headers() == headers,
            r.spec_out() == Seq::<u8>::empty(),
    {
        let r = Response { status: Status::default(), headers, out: Vec::new() };
        proof {
            assert(r.spec_out() =~= Seq::<u8>::empty());
        }
        r
    }

    /// The headers, mutable, for the handler to populate.
    pub fn headers(&mut self) -> (h: &mut Headers)
        ensures
            *h == old(self).spec_headers(),
            final(self).spec_headers() == *final(h),
            final(self).spec_status() == old(self).spec_status(),
            final(self).spec_out() == old(self).spec_out(),
    {
        &mut self.headers
    }

    /// The status this response currently carries.
    pub fn status(&self) -> (s: Status)
        ensures
            s == self.spec_status(),
    {
        self.status
    }

    /// Replaces the status and returns the same instance, so that calls can
    /// be chained.
    pub fn with_status(&mut self, status: Status) -> (r: &mut Self)
        ensures
            r.spec_status() == status,
            r.spec_headers() == old(self).spec_headers(),
            r.spec_out() == old(self).spec_out(),
            *final(self) == *final(r),
    {
        self.status = status;
        self
    }

    /// The bytes composed so far.
    pub fn output(&self) -> (o: &Vec<u8>)
        ensures
            o@ == self.spec_out(),
    {
        &self.out
    }

    /// Consumes the response and yields the bytes to send.
    pub fn into_output(self) -> (o: Vec<u8>)
        ensures
            o@ == self.spec_out(),
    {
        self.out
    }
}

impl Writer<String> for Response {
    /// A framed write appends the whole composed message — status line,
    /// headers, `Content-Length`, blank line, body — to the output, changes
    /// nothing else, and succeeds.
    open spec fn write_ens(
        pre: Self,
        post: Self,
        buf: String,
        r: Result<(), WriteError>,
    ) -> bool {
        &&& post.spec_out() == pre.spec_out() + encode_utf8(
            frame_chars(pre.spec_status(), pre.spec_headers().entries_view(), buf@),
        )
        &&& post.spec_status() == pre.spec_status()
        &&& post.spec_headers() == pre.spec_headers()
        &&& r == Ok::<(), WriteError>(())
    }

    /// Serializes the status line, the headers, a `Content-Length` header
    /// carrying the byte length of `buf`, the blank-line separator, and the
    /// body, and appends the whole message to the output in one step.
    fn write(&mut self, buf: String) -> (r: Result<(), WriteError>) {
        let mut content = String::new();
        content.append("HTTP/1.1 ");
        let code_str = u64_to_decimal(self.status.code() as u64);
        content.append(code_str.as_str());
        content.append(" ");
        content.append(self.status.reason());
        content.append("\r\n");
        if !self.headers.is_empty() {
            let header_block = self.headers.to_wire_string();
            content.append(header_block.as_str());
            content.append("\r\n");
        }
        content.append("Content-Length: ");
        let body_bytes = buf.as_str().as_bytes_vec();
        let length = body_bytes.len();
        let length_str = u64_to_decimal(length as u64);
        content.append(length_str.as_str());
        content.append("\r\n\r\n");
        content.append(buf.as_str());
        proof {
            assert(content@ =~= frame_chars(
                self.status,
                self.headers.entries_view(),
                buf@,
            ));
        }
        let mut bytes = content.as_str().as_bytes_vec();
        self.out.append(&mut bytes);
        Ok(())
    }
}

impl<'a> Writer<&'a [u8]> for Response {
    /// A raw write appends the bytes as they are — no status line, headers,
    /// or `Content-Length` framing — changes nothing else, and succeeds.
    open spec fn write_ens(
        pre: Self,
        post: Self,
        buf: &'a [u8],
        r: Result<(), WriteError>,
    ) -> bool {
        &&& post.spec_out() == pre.spec_out() + buf@
        &&& post.spec_status() == pre.spec_status()
        &&& post.spec_headers() == pre.spec_headers()
        &&& r == Ok::<(), WriteError>(())
    }

    /// Appends the bytes directly to the output, bypassing all framing.
    fn write(&mut self, buf: &'a [u8]) -> (r: Result<(), WriteError>) {
        let mut bytes = vstd::slice::slice_to_vec(buf);
        self.out.append(&mut bytes);
        Ok(())
    }
}

} // verus!
