//! Wire framing for event-stream messages.
//!
//! Every payload travels as `data: <payload>\n\n`, UTF-8 text. Framing is a
//! pure, stateless, non-failing transform; the connect sentinel and the
//! liveness ping are fixed frames.

use vstd::prelude::*;

verus! {

/// The wire form of a payload: `data: ` before it, a blank line after it.
pub open spec fn framed(payload: Seq<char>) -> Seq<char> {
    "data: "@ + payload + "\n\n"@
}

/// The sentinel frame a subscriber receives right after registering.
pub open spec fn connected_frame() -> Seq<char> {
    framed("connected"@)
}

/// The probe frame a sweep offers to every live subscriber.
pub open spec fn ping_frame() -> Seq<char> {
    framed("ping"@)
}

/// Wrap a raw payload into its wire form.
pub fn frame(payload: &str) -> (r: String)
    ensures
        r@ == framed(payload@),
{
    let mut r = String::from_str("data: ");
    r.append(payload);
    r.append("\n\n");
    r
}

/// The connect sentinel, already framed.
pub fn connected_message() -> (r: String)
    ensures
        r@ == connected_frame(),
{
    frame("connected")
}

/// The liveness ping, already framed.
pub fn ping_message() -> (r: String)
    ensures
        r@ == ping_frame(),
{
    frame("ping")
}

} // verus!
