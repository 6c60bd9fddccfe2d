//! Bounded histories: the VPN diagnostic log and the latency samples that
//! the receive page plots.

use vstd::prelude::*;
use std::collections::VecDeque;

verus! {

/// Most lines the VPN log keeps when the engine appends to it.
pub const VPN_LOG_CAP: usize = 100;

/// Most latency samples the receive page keeps.
pub const LATENCY_CAP: usize = 300;

/// `s` with `x` appended, less its oldest element when it then holds more
/// than `cap` elements.
pub open spec fn push_bounded<T>(s: Seq<T>, x: T, cap: nat) -> Seq<T> {
    if s.len() + 1 > cap {
        s.push(x).drop_first()
    } else {
        s.push(x)
    }
}

/// Appends a line to the VPN log and drops the oldest line when the log then
/// holds more than `VPN_LOG_CAP` lines.
pub fn push_log_line(log: &mut Vec<String>, line: String)
    ensures
        final(log)@ == push_bounded(old(log)@, line, VPN_LOG_CAP as nat),
{
    log.push(line);
    if log.len() > VPN_LOG_CAP {
        log.remove(0);
        assert(final(log)@ =~= old(log)@.push(line).drop_first());
    }
}

/// Appends a latency sample and drops the oldest sample when more than
/// `LATENCY_CAP` are then held.
pub fn push_latency_sample<T>(history: &mut VecDeque<T>, sample: T)
    ensures
        final(history)@ == push_bounded(old(history)@, sample, LATENCY_CAP as nat),
{
    history.push_back(sample);
    if history.len() > LATENCY_CAP {
        let _ = history.pop_front();
        assert(final(history)@ =~= old(history)@.push(sample).drop_first());
    }
}

/// A bounded history that holds at most `cap` elements keeps holding at
/// most `cap` after a push, keeps the newest element last, and keeps the
/// elements it already held in their order.
pub proof fn lemma_push_bounded<T>(s: Seq<T>, x: T, cap: nat)
    requires
        cap > 0,
        s.len() <= cap,
    ensures
        push_bounded(s, x, cap).len() <= cap,
        push_bounded(s, x, cap).last() == x,
        push_bounded(s, x, cap).len() == s.len() + 1 ==> push_bounded(s, x, cap).drop_last() == s,
        push_bounded(s, x, cap).len() == s.len() ==> push_bounded(s, x, cap).drop_last()
            == s.drop_first(),
{
    let r = push_bounded(s, x, cap);
    if s.len() + 1 > cap {
        assert(r.drop_last() =~= s.drop_first());
    } else {
        assert(r.drop_last() =~= s);
    }
}

} // verus!
