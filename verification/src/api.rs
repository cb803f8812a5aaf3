//! The pure half of the chat collaborator: mapping the interface's message
//! roles onto the provider's. Sending the request is the host's business.

use vstd::prelude::*;
use vstd::string::StrSliceExecFns;
use vstd::string::StringSliceAdditionalSpecFns;
use crate::text::{bytes_eq, has_prefix, match_at, opt_bytes, sub_bytes};

verus! {

/// The assistant prompt a command line carries: what follows an `ai ` or an
/// `explain ` prefix; other lines carry none.
pub open spec fn assistant_prompt_of(command: Seq<u8>) -> Option<Seq<u8>> {
    if match_at(command, "ai ".spec_bytes(), 0) {
        Some(command.subrange("ai ".spec_bytes().len() as int, command.len() as int))
    } else if match_at(command, "explain ".spec_bytes(), 0) {
        Some(command.subrange("explain ".spec_bytes().len() as int, command.len() as int))
    } else {
        None
    }
}

/// Splits the assistant prompt out of a command line, if it carries one.
pub fn assistant_prompt(command: &Vec<u8>) -> (r: Option<Vec<u8>>)
    ensures
        opt_bytes(r) == assistant_prompt_of(command@),
{
    let ai = "ai ".as_bytes_vec();
    let explain = "explain ".as_bytes_vec();
    if has_prefix(command, &ai) {
        Some(sub_bytes(command, ai.len(), command.len()))
    } else if has_prefix(command, &explain) {
        Some(sub_bytes(command, explain.len(), command.len()))
    } else {
        None
    }
}

/// The provider-side role a chat message role maps to: user text stays user
/// text, assistant turns become model turns, anything else is rejected.
pub open spec fn provider_role_of(role: Seq<u8>) -> Option<Seq<u8>> {
    if role == "user".spec_bytes() {
        Some("user".spec_bytes())
    } else if role == "assistant".spec_bytes() {
        Some("model".spec_bytes())
    } else {
        None
    }
}

/// Maps a chat message role onto the provider's naming.
pub fn provider_role(role: &Vec<u8>) -> (r: Option<Vec<u8>>)
    ensures
        opt_bytes(r) == provider_role_of(role@),
{
    if bytes_eq(role, &"user".as_bytes_vec()) {
        Some("user".as_bytes_vec())
    } else if bytes_eq(role, &"assistant".as_bytes_vec()) {
        Some("model".as_bytes_vec())
    } else {
        None
    }
}

} // verus!
