//! Notices for the person at the machine.
use vstd::prelude::*;
use vstd::string::*;

use crate::text;

verus! {

/// A notice to show as a toast and in the window.
#[derive(Debug)]
pub struct UserNotification {
    pub title: String,
    pub body: String,
}

/// The text of the notice that a clipboard item was too large.
pub open spec fn too_large_body(size: nat, limit: nat) -> Seq<char> {
    "Clipboard payload "@ + text::decimal(size) + " bytes exceeds limit "@ + text::decimal(limit)
        + " bytes; skipping."@
}

/// The notice that a clipboard item was too large to send.
pub fn too_large_notice(size: u128, limit: u64) -> (notice: UserNotification)
    ensures
        notice.title@ == "ClipSync"@,
        notice.body@ == too_large_body(size as nat, limit as nat),
{
    let mut body = "Clipboard payload ".to_string();
    body.append(text::decimal_text(size).as_str());
    body.append(" bytes exceeds limit ");
    body.append(text::decimal_text(limit as u128).as_str());
    body.append(" bytes; skipping.");
    UserNotification { title: "ClipSync".to_string(), body }
}

/// The notice that a pairing code was accepted.
pub fn paired_notice(code: &str) -> (notice: UserNotification)
    ensures
        notice.title@ == "Pairing"@,
        notice.body@ == "Code "@ + code@ + " accepted. Connecting to peers with the same code…"@,
{
    let mut body = "Code ".to_string();
    body.append(code);
    body.append(" accepted. Connecting to peers with the same code…");
    UserNotification { title: "Pairing".to_string(), body }
}

/// The notice about an item that is too large names its size and the limit, both in
/// decimal.
pub proof fn law_too_large_body(size: nat, limit: nat)
    ensures
        exists|shown_size: Seq<char>, shown_limit: Seq<char>| {
            &&& #[trigger] text::number_of_digits(shown_size) == size
            &&& #[trigger] text::number_of_digits(shown_limit) == limit
            &&& too_large_body(size, limit) == "Clipboard payload "@ + shown_size
                + " bytes exceeds limit "@ + shown_limit + " bytes; skipping."@
        },
{
    text::law_decimal(size);
    text::law_decimal(limit);
    assert(text::number_of_digits(text::decimal(size)) == size);
    assert(text::number_of_digits(text::decimal(limit)) == limit);
}

} // verus!
