use vstd::prelude::*;

verus! {

/// A logical key, already decoded from whatever the terminal sent.
#[derive(Clone, Copy, PartialEq, Eq, Structural, Debug)]
pub enum Key {
    Up,
    Down,
    Left,
    Right,
    Esc,
    Char(char),
    Other,
}

} // verus!

verus! {

/// The input source failed to deliver an event.
#[derive(Clone, Copy, PartialEq, Eq, Structural, Debug)]
pub struct InputFault;

/// Whether a coalesced outcome ends the drain: a fault, or the quit key,
/// which no later key may override.
pub open spec fn ends_drain(r: Option<Result<Key, InputFault>>) -> bool {
    match r {
        Some(Err(_)) => true,
        Some(Ok(Key::Esc)) => true,
        _ => false,
    }
}

/// The single outcome of a drain of events, read in order: the first fault
/// or quit key wins outright; otherwise the last key wins; with no events,
/// there is no new input.
pub open spec fn coalesce(events: Seq<Result<Key, InputFault>>) -> Option<Result<Key, InputFault>>
    decreases events.len(),
{
    if events.len() == 0 {
        None
    } else {
        let before = coalesce(events.drop_last());
        if ends_drain(before) {
            before
        } else {
            Some(events.last())
        }
    }
}

/// Once a prefix of the drain has ended it, later events change nothing.
proof fn lemma_coalesce_settled(events: Seq<Result<Key, InputFault>>, k: int)
    requires
        0 <= k <= events.len(),
        ends_drain(coalesce(events.take(k))),
    ensures
        coalesce(events) == coalesce(events.take(k)),
    decreases events.len() - k,
{
    if k < events.len() {
        assert(events.take(k + 1).drop_last() == events.take(k));
        lemma_coalesce_settled(events, k + 1);
    } else {
        assert(events.take(k) == events);
    }
}

/// Reduces all the events buffered since the last poll to one outcome.
pub fn get_key(events: &Vec<Result<Key, InputFault>>) -> (r: Option<Result<Key, InputFault>>)
    ensures
        r == coalesce(events@),
{
    let mut result: Option<Result<Key, InputFault>> = None;
    let mut i: usize = 0;
    while i < events.len()
        invariant
            i <= events@.len(),
            result == coalesce(events@.take(i as int)),
            !ends_drain(result),
        decreases events@.len() - i,
    {
        let e = events[i];
        assert(events@.take(i + 1).drop_last() == events@.take(i as int));
        match e {
            Err(f) => {
                proof {
                    lemma_coalesce_settled(events@, i + 1);
                }
                return Some(Err(f));
            },
            Ok(Key::Esc) => {
                proof {
                    lemma_coalesce_settled(events@, i + 1);
                }
                return Some(Ok(Key::Esc));
            },
            Ok(k) => {
                result = Some(Ok(k));
            },
        }
        i = i + 1;
    }
    assert(events@.take(i as int) == events@);
    result
}

} // verus!
