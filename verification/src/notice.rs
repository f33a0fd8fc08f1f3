use vstd::prelude::*;

verus! {

/// How long a notice stays on screen, in nanoseconds (three seconds).
pub const NOTICE_NANOS: u128 = 3_000_000_000;

/// The notice shown after `text` was copied to the clipboard.
pub fn copied_notice(text: &str) -> (s: String)
    ensures
        s@ == seq!['C', 'o', 'p', 'i', 'e', 'd', ' '] + text@,
{
    proof {
        reveal_strlit("Copied ");
    }
    let mut s: String = String::from_str("Copied ");
    s.append(text);
    s
}

/// Whether a notice shown `elapsed_nanos` ago has to be taken down.
pub fn notice_expired(elapsed_nanos: u128) -> (e: bool)
    ensures
        e == (elapsed_nanos > NOTICE_NANOS),
{
    elapsed_nanos > NOTICE_NANOS
}

} // verus!
