use vstd::prelude::*;

verus! {

/// The character of a decimal digit `d < 10`.
pub open spec fn digit_char(d: nat) -> char {
    (d + 48) as char
}

/// The decimal writing of `n`, without leading zeros.
pub open spec fn decimal_text(n: nat) -> Seq<char>
    decreases n,
{
    if n < 10 {
        seq![digit_char(n)]
    } else {
        decimal_text(n / 10).push(digit_char(n % 10))
    }
}

/// The text `"Thread "` followed by `id` in decimal.
pub open spec fn thread_label_text(id: nat) -> Seq<char> {
    seq!['T', 'h', 'r', 'e', 'a', 'd', ' '] + decimal_text(id)
}

/// Calls std's `format!("{}{}", prefix, n)`. The contract claims what std
/// documents of `Display` for an unsigned integer: it is written in decimal,
/// without sign or leading zeros, after the prefix.
#[verifier::external_body]
fn format_with_number(prefix: &str, n: usize) -> (s: String)
    ensures
        s@ == prefix@ + decimal_text(n as nat),
{
    format!("{}{}", prefix, n)
}

/// The name under which thread `id` announces itself: `Thread <id>`.
pub fn thread_label(id: usize) -> (s: String)
    ensures
        s@ == thread_label_text(id as nat),
{
    let prefix = "Thread ";
    proof {
        reveal_strlit("Thread ");
    }
    format_with_number(prefix, id)
}

/// Check and act under one lock: the first thread to find the cache empty
/// fills it with its own label and reports `true`; every later thread finds
/// the cache filled, leaves it as it is and reports `false`.
pub fn check_then_act(cache: &mut Option<String>, thread_id: usize) -> (initialized: bool)
    ensures
        initialized == (old(cache).is_none()),
        initialized ==> final(cache).is_some() && final(cache).unwrap()@ == thread_label_text(
            thread_id as nat,
        ),
        !initialized ==> *final(cache) == *old(cache),
{
    if cache.is_none() {
        *cache = Some(thread_label(thread_id));
        true
    } else {
        false
    }
}

/// One-time initialisation: runs `init` and stores its result only when the
/// slot is empty, and reports whether it did. A filled slot is never
/// changed, so every caller after the first sees the first caller's value.
pub fn init_once<T, F: FnOnce() -> T>(slot: &mut Option<T>, init: F) -> (ran: bool)
    requires
        old(slot).is_none() ==> init.requires(()),
    ensures
        ran == (old(slot).is_none()),
        ran ==> final(slot).is_some() && init.ensures((), final(slot).unwrap()),
        !ran ==> *final(slot) == *old(slot),
{
    if slot.is_none() {
        *slot = Some(init());
        true
    } else {
        false
    }
}

} // verus!
