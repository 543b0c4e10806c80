//! What a sequence of capability calls amounts to: the time it takes, the
//! level it leaves the output at, and how often it switches the output on.

use vstd::prelude::*;
use crate::capability::{level_after, CapabilityCall, Level};

verus! {

/// Milliseconds for which `call` blocks its caller.
pub open spec fn hold_ms(call: CapabilityCall) -> nat {
    match call {
        CapabilityCall::Delay(milliseconds) => milliseconds as nat,
        _ => 0,
    }
}

/// Milliseconds that pass while `calls` are served one after the other.
pub open spec fn elapsed_ms(calls: Seq<CapabilityCall>) -> nat
    decreases calls.len(),
{
    if calls.len() == 0 {
        0
    } else {
        elapsed_ms(calls.drop_last()) + hold_ms(calls.last())
    }
}

/// Level of the output line after `calls` were served on a line that started
/// at `start`.
pub open spec fn level_from(start: Level, calls: Seq<CapabilityCall>) -> Level
    decreases calls.len(),
{
    if calls.len() == 0 {
        start
    } else {
        level_after(level_from(start, calls.drop_last()), calls.last())
    }
}

/// How often `calls` switch a line that started at `start` from inactive to
/// active.
pub open spec fn on_transitions(start: Level, calls: Seq<CapabilityCall>) -> nat
    decreases calls.len(),
{
    if calls.len() == 0 {
        0
    } else {
        let before = level_from(start, calls.drop_last());
        let after = level_after(before, calls.last());
        on_transitions(start, calls.drop_last()) + if before == Level::Low && after == Level::High {
            1nat
        } else {
            0nat
        }
    }
}

/// Milliseconds after the first call at which call number `index` is made.
pub open spec fn offset_ms(calls: Seq<CapabilityCall>, index: int) -> nat {
    elapsed_ms(calls.take(index))
}

/// `calls` repeated `times` times.
pub open spec fn repeated(calls: Seq<CapabilityCall>, times: nat) -> Seq<CapabilityCall>
    decreases times,
{
    if times == 0 {
        Seq::empty()
    } else {
        repeated(calls, (times - 1) as nat) + calls
    }
}

/// How often `call` occurs among `calls`.
pub open spec fn occurrences(calls: Seq<CapabilityCall>, call: CapabilityCall) -> nat
    decreases calls.len(),
{
    if calls.len() == 0 {
        0
    } else {
        occurrences(calls.drop_last(), call) + if calls.last() == call {
            1nat
        } else {
            0nat
        }
    }
}

/// The moments at which `calls` set the output line, and the level each of
/// them sets it to, when the first call is made at `start_ms`.
pub open spec fn switches(start_ms: nat, calls: Seq<CapabilityCall>) -> Seq<(nat, Level)>
    decreases calls.len(),
{
    if calls.len() == 0 {
        Seq::empty()
    } else {
        let earlier = switches(start_ms, calls.drop_last());
        let now = start_ms + elapsed_ms(calls.drop_last());
        match calls.last() {
            CapabilityCall::Activate => earlier.push((now, Level::High)),
            CapabilityCall::Deactivate => earlier.push((now, Level::Low)),
            CapabilityCall::Delay(_) => earlier,
        }
    }
}

/// Time adds up over concatenation.
pub proof fn lemma_elapsed_concat(first: Seq<CapabilityCall>, second: Seq<CapabilityCall>)
    ensures
        elapsed_ms(first + second) == elapsed_ms(first) + elapsed_ms(second),
    decreases second.len(),
{
    if second.len() > 0 {
        lemma_elapsed_concat(first, second.drop_last());
        assert((first + second).drop_last() =~= first + second.drop_last());
    }
}

/// The level after a concatenation is the level the second part leaves when
/// it starts where the first part ended.
pub proof fn lemma_level_concat(
    start: Level,
    first: Seq<CapabilityCall>,
    second: Seq<CapabilityCall>,
)
    ensures
        level_from(start, first + second) == level_from(level_from(start, first), second),
    decreases second.len(),
{
    if second.len() > 0 {
        lemma_level_concat(start, first, second.drop_last());
        assert((first + second).drop_last() =~= first + second.drop_last());
    }
}

/// Switch-on counts add up over concatenation.
pub proof fn lemma_on_transitions_concat(
    start: Level,
    first: Seq<CapabilityCall>,
    second: Seq<CapabilityCall>,
)
    ensures
        on_transitions(start, first + second) == on_transitions(start, first) + on_transitions(
            level_from(start, first),
            second,
        ),
    decreases second.len(),
{
    if second.len() > 0 {
        lemma_on_transitions_concat(start, first, second.drop_last());
        lemma_level_concat(start, first, second.drop_last());
        assert((first + second).drop_last() =~= first + second.drop_last());
    }
}

/// Occurrences add up over concatenation.
pub proof fn lemma_occurrences_concat(
    first: Seq<CapabilityCall>,
    second: Seq<CapabilityCall>,
    call: CapabilityCall,
)
    ensures
        occurrences(first + second, call) == occurrences(first, call) + occurrences(second, call),
    decreases second.len(),
{
    if second.len() > 0 {
        lemma_occurrences_concat(first, second.drop_last(), call);
        assert((first + second).drop_last() =~= first + second.drop_last());
    }
}

/// The switches of a concatenation are those of the first part, followed by
/// those of the second part made once the first part has taken its time.
pub proof fn lemma_switches_concat(
    start_ms: nat,
    first: Seq<CapabilityCall>,
    second: Seq<CapabilityCall>,
)
    ensures
        switches(start_ms, first + second) == switches(start_ms, first) + switches(
            start_ms + elapsed_ms(first),
            second,
        ),
    decreases second.len(),
{
    if second.len() > 0 {
        lemma_switches_concat(start_ms, first, second.drop_last());
        lemma_elapsed_concat(first, second.drop_last());
        assert((first + second).drop_last() =~= first + second.drop_last());
    }
}

/// Repeating a sequence once more appends it; the length and the time taken
/// grow in proportion.
pub proof fn lemma_repeated_measure(calls: Seq<CapabilityCall>, times: nat)
    ensures
        repeated(calls, times).len() == times * calls.len(),
        elapsed_ms(repeated(calls, times)) == times * elapsed_ms(calls),
    decreases times,
{
    if times > 0 {
        lemma_repeated_measure(calls, (times - 1) as nat);
        lemma_elapsed_concat(repeated(calls, (times - 1) as nat), calls);
        assert(times * calls.len() == (times - 1) * calls.len() + calls.len())
            by (nonlinear_arith);
        assert(times * elapsed_ms(calls) == (times - 1) * elapsed_ms(calls) + elapsed_ms(calls))
            by (nonlinear_arith);
    } else {
        assert(times * calls.len() == 0 && times * elapsed_ms(calls) == 0) by (nonlinear_arith)
            requires
                times == 0,
        ;
    }
}

/// Every repetition is the same: call number `index` of a repeated sequence
/// is call number `index` modulo the length of the sequence.
pub proof fn lemma_repeated_index(calls: Seq<CapabilityCall>, times: nat, index: int)
    requires
        0 <= index < times * calls.len(),
    ensures
        repeated(calls, times).len() == times * calls.len(),
        repeated(calls, times)[index] == calls[index % (calls.len() as int)],
    decreases times,
{
    let len = calls.len() as int;
    assert(times > 0 && len > 0) by (nonlinear_arith)
        requires
            0 <= index < times * len,
            len >= 0,
    ;
    let shorter = (times - 1) as nat;
    lemma_repeated_measure(calls, shorter);
    assert(times * len == shorter * len + len) by (nonlinear_arith)
        requires
            shorter == times - 1,
    ;
    if index < shorter * len {
        lemma_repeated_index(calls, shorter, index);
    } else {
        let rest = index - shorter * len;
        assert(index % len == rest) by (nonlinear_arith)
            requires
                index == shorter * len + rest,
                0 <= rest < len,
        ;
    }
}

/// Serving one more call takes the time that call blocks for, sets the line
/// as that call says, and counts as a switch-on exactly when it takes the
/// line from inactive to active.
pub proof fn lemma_push(start: Level, calls: Seq<CapabilityCall>, call: CapabilityCall)
    ensures
        elapsed_ms(calls.push(call)) == elapsed_ms(calls) + hold_ms(call),
        level_from(start, calls.push(call)) == level_after(level_from(start, calls), call),
        on_transitions(start, calls.push(call)) == on_transitions(start, calls) + if level_from(
            start,
            calls,
        ) == Level::Low && call == CapabilityCall::Activate {
            1nat
        } else {
            0nat
        },
{
    assert(calls.push(call).drop_last() =~= calls);
}

/// One more call among the calls counts once if it is the call counted.
pub proof fn lemma_push_occurrences(
    calls: Seq<CapabilityCall>,
    call: CapabilityCall,
    counted: CapabilityCall,
)
    ensures
        occurrences(calls.push(call), counted) == occurrences(calls, counted) + if call
            == counted {
            1nat
        } else {
            0nat
        },
{
    assert(calls.push(call).drop_last() =~= calls);
}

/// One more call adds a switch at the moment it is made if it sets the line,
/// and none if it is a delay.
pub proof fn lemma_push_switches(start_ms: nat, calls: Seq<CapabilityCall>, call: CapabilityCall)
    ensures
        switches(start_ms, calls.push(call)) == match call {
            CapabilityCall::Activate => switches(start_ms, calls).push(
                (start_ms + elapsed_ms(calls), Level::High),
            ),
            CapabilityCall::Deactivate => switches(start_ms, calls).push(
                (start_ms + elapsed_ms(calls), Level::Low),
            ),
            CapabilityCall::Delay(_) => switches(start_ms, calls),
        },
{
    assert(calls.push(call).drop_last() =~= calls);
}

/// Delays block for at least the time asked for: two delays in a row take
/// the sum of both before the next call is made.
pub proof fn lemma_delays_accumulate(calls: Seq<CapabilityCall>, first: u32, second: u32)
    ensures
        elapsed_ms(calls.push(CapabilityCall::Delay(first))) == elapsed_ms(calls) + first,
        elapsed_ms(
            calls.push(CapabilityCall::Delay(first)).push(CapabilityCall::Delay(second)),
        ) == elapsed_ms(calls) + first + second,
{
    let one = calls.push(CapabilityCall::Delay(first));
    lemma_push(Level::Low, calls, CapabilityCall::Delay(first));
    lemma_push(Level::Low, one, CapabilityCall::Delay(second));
}

/// Switching on is idempotent: a second `activate` right after the first
/// leaves the line active and adds no switch-on.
pub proof fn lemma_activate_idempotent(start: Level, calls: Seq<CapabilityCall>)
    ensures
        level_from(start, calls.push(CapabilityCall::Activate)) == Level::High,
        level_from(
            start,
            calls.push(CapabilityCall::Activate).push(CapabilityCall::Activate),
        ) == Level::High,
        on_transitions(
            start,
            calls.push(CapabilityCall::Activate).push(CapabilityCall::Activate),
        ) == on_transitions(start, calls.push(CapabilityCall::Activate)),
{
    let once = calls.push(CapabilityCall::Activate);
    lemma_push(start, once, CapabilityCall::Activate);
}

/// Switching off is idempotent as well, and never counts as a switch-on.
pub proof fn lemma_deactivate_idempotent(start: Level, calls: Seq<CapabilityCall>)
    ensures
        level_from(start, calls.push(CapabilityCall::Deactivate)) == Level::Low,
        level_from(
            start,
            calls.push(CapabilityCall::Deactivate).push(CapabilityCall::Deactivate),
        ) == Level::Low,
        on_transitions(
            start,
            calls.push(CapabilityCall::Deactivate).push(CapabilityCall::Deactivate),
        ) == on_transitions(start, calls),
{
    let once = calls.push(CapabilityCall::Deactivate);
    lemma_push(start, calls, CapabilityCall::Deactivate);
    lemma_push(start, once, CapabilityCall::Deactivate);
}

} // verus!
