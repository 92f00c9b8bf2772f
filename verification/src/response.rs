//! The diagnostic response that is sent when a connection fails.

use vstd::prelude::*;
use vstd::string::{StrSliceExecFns, StringExecFns};
use vstd::utf8::encode_utf8;

verus! {

/// The status line and headers of the diagnostic response, with the blank
/// line that ends them.
pub open spec fn diagnostic_head() -> Seq<char> {
    "HTTP/1.1 520 LOVE YOU\r\nContent-Type: text/plain; charset=utf-8\r\nConnection: close\r\n\r\n"@
}

/// The diagnostic response for a message: the fixed head, the message as
/// the body, and a closing line end.
pub open spec fn diagnostic(message: Seq<char>) -> Seq<char> {
    diagnostic_head() + message + "\r\n"@
}

/// The bytes of the diagnostic response for a message.
pub open spec fn diagnostic_bytes(message: Seq<char>) -> Seq<u8> {
    encode_utf8(diagnostic(message))
}

/// Builds the diagnostic response for a message, as the bytes to write.
pub fn error_response(message: &str) -> (bytes: Vec<u8>)
    ensures
        bytes@ == diagnostic_bytes(message@),
{
    let mut text = String::from_str(
        "HTTP/1.1 520 LOVE YOU\r\nContent-Type: text/plain; charset=utf-8\r\nConnection: close\r\n\r\n",
    );
    text.append(message);
    text.append("\r\n");
    text.as_str().as_bytes_vec()
}

} // verus!
