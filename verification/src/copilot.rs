//! The assistant collaborator's data model and the one piece of its wire
//! protocol that is pure logic: framing a message for a language-server
//! stream. Starting, feeding and stopping the server process is the host's
//! business.

use vstd::prelude::*;
use vstd::string::StrSliceExecFns;
use vstd::string::StringSliceAdditionalSpecFns;
use crate::text::{append_bytes, decimal, format_u64};

verus! {

/// How the assistant integration behaves.
#[derive(Debug, Clone)]
pub struct CopilotConfig {
    pub enabled: bool,
    pub telemetry: bool,
    pub auto_trigger: bool,
    pub debounce_ms: u64,
}

impl Default for CopilotConfig {
    /// Everything on, with a 150 ms debounce.
    fn default() -> (r: CopilotConfig)
        ensures
            r.enabled == true,
            r.telemetry == true,
            r.auto_trigger == true,
            r.debounce_ms == 150,
    {
        CopilotConfig { enabled: true, telemetry: true, auto_trigger: true, debounce_ms: 150 }
    }
}

/// A position in a document, by line and column.
#[derive(Debug, Clone)]
pub struct Position {
    pub line: u32,
    pub character: u32,
}

/// A range in a document.
#[derive(Debug, Clone)]
pub struct Range {
    pub start: Position,
    pub end: Position,
}

/// The assistant server's reported state.
#[derive(Debug, Clone)]
pub struct CopilotStatus {
    pub status: String,
    pub message: String,
    pub signed_in: bool,
}

/// The device-flow hand-off of a sign-in attempt.
#[derive(Debug, Clone)]
pub struct SignInResponse {
    pub user_code: String,
    pub verification_uri: String,
}

/// One message framed for a language-server byte stream: a content-length
/// header, a blank line, then the content itself.
pub fn frame_message(content: &Vec<u8>) -> (r: Vec<u8>)
    ensures
        r@ == "Content-Length: ".spec_bytes() + decimal(content@.len() as int)
            + "\r\n\r\n".spec_bytes() + content@,
{
    let mut r = "Content-Length: ".as_bytes_vec();
    let digits = format_u64(content.len() as u64);
    append_bytes(&mut r, &digits);
    append_bytes(&mut r, &"\r\n\r\n".as_bytes_vec());
    append_bytes(&mut r, content);
    r
}

} // verus!
