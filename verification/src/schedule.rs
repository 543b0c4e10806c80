//! The timetable of the signal: how long a cycle takes, when it switches the
//! output, and how often each call occurs in it.

use vstd::prelude::*;
use crate::capability::{CapabilityCall, Level};
use crate::pattern::{
    cycle_calls, lemma_cycle_layout, lemma_letter, letter, stream, symbol_calls, word, Symbol,
    CYCLE_CALLS, LETTER_GAP_MS, LONG_ON_MS, PULSE_GAP_MS, SHORT_ON_MS, WORD_GAP_MS,
};
use crate::trace::{
    elapsed_ms, lemma_elapsed_concat, lemma_level_concat, lemma_occurrences_concat,
    lemma_on_transitions_concat, lemma_push, lemma_push_occurrences, lemma_push_switches,
    lemma_repeated_index, lemma_repeated_measure, lemma_switches_concat, level_from, occurrences,
    on_transitions, repeated, switches,
};

verus! {

/// Milliseconds one full cycle takes.
pub const CYCLE_MS: u32 = 4100;

/// Milliseconds for which `symbol` keeps the output active.
pub open spec fn symbol_on_ms(symbol: Symbol) -> nat {
    match symbol {
        Symbol::ShortPulse => SHORT_ON_MS as nat,
        Symbol::LongPulse => LONG_ON_MS as nat,
        Symbol::LetterGap => 0,
        Symbol::WordGap => 0,
    }
}

/// Milliseconds for which `symbol` keeps the output inactive.
pub open spec fn symbol_off_ms(symbol: Symbol) -> nat {
    match symbol {
        Symbol::ShortPulse => PULSE_GAP_MS as nat,
        Symbol::LongPulse => PULSE_GAP_MS as nat,
        Symbol::LetterGap => LETTER_GAP_MS as nat,
        Symbol::WordGap => WORD_GAP_MS as nat,
    }
}

/// The pulse gap as a span of time.
pub open spec fn pulse_gap() -> nat {
    PULSE_GAP_MS as nat
}

/// Whether `symbol` switches the output on and off again.
pub open spec fn is_pulse(symbol: Symbol) -> bool {
    symbol == Symbol::ShortPulse || symbol == Symbol::LongPulse
}

/// The output is switched on at `at_ms`.
pub open spec fn on_at(at_ms: nat) -> (nat, Level) {
    (at_ms, Level::High)
}

/// The output is switched off at `at_ms`.
pub open spec fn off_at(at_ms: nat) -> (nat, Level) {
    (at_ms, Level::Low)
}

/// The moments at which one cycle that starts at `start_ms` switches the
/// output: three short pulses, three long pulses, three short pulses.
pub open spec fn cycle_switches(start_ms: nat) -> Seq<(nat, Level)> {
    seq![
        on_at(start_ms + 0),
        off_at(start_ms + 100),
        on_at(start_ms + 200),
        off_at(start_ms + 300),
        on_at(start_ms + 400),
        off_at(start_ms + 500),
        on_at(start_ms + 800),
        off_at(start_ms + 1200),
        on_at(start_ms + 1300),
        off_at(start_ms + 1700),
        on_at(start_ms + 1800),
        off_at(start_ms + 2200),
        on_at(start_ms + 2500),
        off_at(start_ms + 2600),
        on_at(start_ms + 2700),
        off_at(start_ms + 2800),
        on_at(start_ms + 2900),
        off_at(start_ms + 3000),
    ]
}

/// What one symbol amounts to: the time it takes, the switches it makes, the
/// level it leaves behind, and the calls it is made of.
pub proof fn lemma_symbol(symbol: Symbol, start_ms: nat, level: Level, counted: CapabilityCall)
    ensures
        elapsed_ms(symbol_calls(symbol)) == symbol_on_ms(symbol) + symbol_off_ms(symbol),
        switches(start_ms, symbol_calls(symbol)) == if is_pulse(symbol) {
            seq![on_at(start_ms), off_at(start_ms + symbol_on_ms(symbol))]
        } else {
            Seq::empty()
        },
        level_from(level, symbol_calls(symbol)) == if is_pulse(symbol) {
            Level::Low
        } else {
            level
        },
        on_transitions(level, symbol_calls(symbol)) == if is_pulse(symbol) && level
            == Level::Low {
            1nat
        } else {
            0nat
        },
        occurrences(symbol_calls(symbol), counted) == if is_pulse(symbol) {
            (if counted == CapabilityCall::Activate {
                1nat
            } else {
                0nat
            }) + (if counted == CapabilityCall::Delay(symbol_on_ms(symbol) as u32) {
                1nat
            } else {
                0nat
            }) + (if counted == CapabilityCall::Deactivate {
                1nat
            } else {
                0nat
            }) + (if counted == CapabilityCall::Delay(PULSE_GAP_MS) {
                1nat
            } else {
                0nat
            })
        } else {
            if counted == CapabilityCall::Delay(symbol_off_ms(symbol) as u32) {
                1nat
            } else {
                0nat
            }
        },
{
    let none = Seq::<CapabilityCall>::empty();
    if is_pulse(symbol) {
        let hold = CapabilityCall::Delay(symbol_on_ms(symbol) as u32);
        let gap = CapabilityCall::Delay(PULSE_GAP_MS);
        let c1 = none.push(CapabilityCall::Activate);
        let c2 = c1.push(hold);
        let c3 = c2.push(CapabilityCall::Deactivate);
        let c4 = c3.push(gap);
        assert(symbol_calls(symbol) =~= c4);
        lemma_push(level, none, CapabilityCall::Activate);
        lemma_push(level, c1, hold);
        lemma_push(level, c2, CapabilityCall::Deactivate);
        lemma_push(level, c3, gap);
        lemma_push_switches(start_ms, none, CapabilityCall::Activate);
        lemma_push_switches(start_ms, c1, hold);
        lemma_push_switches(start_ms, c2, CapabilityCall::Deactivate);
        lemma_push_switches(start_ms, c3, gap);
        lemma_push_occurrences(none, CapabilityCall::Activate, counted);
        lemma_push_occurrences(c1, hold, counted);
        lemma_push_occurrences(c2, CapabilityCall::Deactivate, counted);
        lemma_push_occurrences(c3, gap, counted);
        assert(switches(start_ms, c4) =~= seq![
            on_at(start_ms),
            off_at(start_ms + symbol_on_ms(symbol)),
        ]);
    } else {
        let gap = CapabilityCall::Delay(symbol_off_ms(symbol) as u32);
        let c1 = none.push(gap);
        assert(symbol_calls(symbol) =~= c1);
        lemma_push(level, none, gap);
        lemma_push_switches(start_ms, none, gap);
        lemma_push_occurrences(none, gap, counted);
    }
}

/// What a letter of three pulses amounts to.
pub proof fn lemma_pulse_letter(
    symbol: Symbol,
    start_ms: nat,
    level: Level,
    counted: CapabilityCall,
)
    requires
        is_pulse(symbol),
    ensures
        elapsed_ms(letter(symbol)) == 3 * (symbol_on_ms(symbol) + PULSE_GAP_MS),
        switches(start_ms, letter(symbol)) == seq![
            on_at(start_ms),
            off_at(start_ms + symbol_on_ms(symbol)),
            on_at(start_ms + symbol_on_ms(symbol) + pulse_gap()),
            off_at(start_ms + 2 * symbol_on_ms(symbol) + pulse_gap()),
            on_at(start_ms + 2 * symbol_on_ms(symbol) + 2 * pulse_gap()),
            off_at(start_ms + 3 * symbol_on_ms(symbol) + 2 * pulse_gap()),
        ],
        level_from(level, letter(symbol)) == Level::Low,
        on_transitions(level, letter(symbol)) == if level == Level::Low {
            3nat
        } else {
            2nat
        },
        occurrences(letter(symbol), counted) == 3 * occurrences(symbol_calls(symbol), counted),
{
    let one = symbol_calls(symbol);
    let step = symbol_on_ms(symbol) + PULSE_GAP_MS;
    lemma_letter(symbol);
    lemma_symbol(symbol, start_ms, level, counted);
    lemma_symbol(symbol, (start_ms + step) as nat, Level::Low, counted);
    lemma_symbol(symbol, (start_ms + 2 * step) as nat, Level::Low, counted);
    lemma_elapsed_concat(one, one);
    lemma_elapsed_concat(one + one, one);
    lemma_switches_concat(start_ms, one, one);
    lemma_switches_concat(start_ms, one + one, one);
    lemma_level_concat(level, one, one);
    lemma_level_concat(level, one + one, one);
    lemma_on_transitions_concat(level, one, one);
    lemma_on_transitions_concat(level, one + one, one);
    lemma_occurrences_concat(one, one, counted);
    lemma_occurrences_concat(one + one, one, counted);
    assert(switches(start_ms, one + one + one) =~= seq![
        on_at(start_ms),
        off_at(start_ms + symbol_on_ms(symbol)),
        on_at(start_ms + symbol_on_ms(symbol) + pulse_gap()),
        off_at(start_ms + 2 * symbol_on_ms(symbol) + pulse_gap()),
        on_at(start_ms + 2 * symbol_on_ms(symbol) + 2 * pulse_gap()),
        off_at(start_ms + 3 * symbol_on_ms(symbol) + 2 * pulse_gap()),
    ]);
}

/// The timetable of one cycle that starts at `start_ms`, whatever level the
/// output has at that moment: the output is switched on and off nine times,
/// at the moments [`cycle_switches`] lists, the cycle takes [`CYCLE_MS`], and
/// it leaves the output inactive.
pub proof fn lemma_cycle_schedule(start_ms: nat, level: Level)
    ensures
        switches(start_ms, cycle_calls()) == cycle_switches(start_ms),
        elapsed_ms(cycle_calls()) == CYCLE_MS,
        level_from(level, cycle_calls()) == Level::Low,
        on_transitions(Level::Low, cycle_calls()) == 9,
{
    let s = Symbol::ShortPulse;
    let l = Symbol::LongPulse;
    let g = symbol_calls(Symbol::LetterGap);
    let w = symbol_calls(Symbol::WordGap);
    let any = CapabilityCall::Activate;
    lemma_cycle_layout();
    let first_letter = letter(s);
    let first_gap = first_letter + g;
    let second_letter = first_gap + letter(l);
    let second_gap = second_letter + g;
    let third_letter = second_gap + letter(s);
    let whole = third_letter + w;
    assert(cycle_calls() == whole);

    lemma_pulse_letter(s, start_ms, level, any);
    lemma_pulse_letter(s, start_ms, Level::Low, any);
    lemma_symbol(Symbol::LetterGap, (start_ms + 600) as nat, Level::Low, any);
    lemma_pulse_letter(l, (start_ms + 800) as nat, Level::Low, any);
    lemma_symbol(Symbol::LetterGap, (start_ms + 2300) as nat, Level::Low, any);
    lemma_pulse_letter(s, (start_ms + 2500) as nat, Level::Low, any);
    lemma_symbol(Symbol::WordGap, (start_ms + 3100) as nat, Level::Low, any);

    lemma_elapsed_concat(first_letter, g);
    lemma_elapsed_concat(first_gap, letter(l));
    lemma_elapsed_concat(second_letter, g);
    lemma_elapsed_concat(second_gap, letter(s));
    lemma_elapsed_concat(third_letter, w);

    lemma_switches_concat(start_ms, first_letter, g);
    lemma_switches_concat(start_ms, first_gap, letter(l));
    lemma_switches_concat(start_ms, second_letter, g);
    lemma_switches_concat(start_ms, second_gap, letter(s));
    lemma_switches_concat(start_ms, third_letter, w);
    assert(switches(start_ms, whole) =~= cycle_switches(start_ms));

    lemma_level_concat(level, first_letter, g);
    lemma_level_concat(level, first_gap, letter(l));
    lemma_level_concat(level, second_letter, g);
    lemma_level_concat(level, second_gap, letter(s));
    lemma_level_concat(level, third_letter, w);

    lemma_level_concat(Level::Low, first_letter, g);
    lemma_level_concat(Level::Low, first_gap, letter(l));
    lemma_level_concat(Level::Low, second_letter, g);
    lemma_level_concat(Level::Low, second_gap, letter(s));
    lemma_level_concat(Level::Low, third_letter, w);
    lemma_on_transitions_concat(Level::Low, first_letter, g);
    lemma_on_transitions_concat(Level::Low, first_gap, letter(l));
    lemma_on_transitions_concat(Level::Low, second_letter, g);
    lemma_on_transitions_concat(Level::Low, second_gap, letter(s));
    lemma_on_transitions_concat(Level::Low, third_letter, w);
}

/// How often `counted` occurs in one cycle: nine times each for switching on
/// and switching off, fifteen delays of the pulse gap, three delays of the
/// long pulse, two letter gaps and one word gap, thirty-nine calls in all.
pub proof fn lemma_cycle_census(counted: CapabilityCall)
    ensures
        cycle_calls().len() == CYCLE_CALLS,
        occurrences(cycle_calls(), counted) == match counted {
            CapabilityCall::Activate => 9nat,
            CapabilityCall::Deactivate => 9nat,
            CapabilityCall::Delay(milliseconds) => if milliseconds == 100 {
                15nat
            } else if milliseconds == 400 {
                3nat
            } else if milliseconds == 200 {
                2nat
            } else if milliseconds == 1000 {
                1nat
            } else {
                0nat
            },
        },
{
    let s = Symbol::ShortPulse;
    let l = Symbol::LongPulse;
    let g = symbol_calls(Symbol::LetterGap);
    let w = symbol_calls(Symbol::WordGap);
    lemma_cycle_layout();
    let first_letter = letter(s);
    let first_gap = first_letter + g;
    let second_letter = first_gap + letter(l);
    let second_gap = second_letter + g;
    let third_letter = second_gap + letter(s);
    lemma_pulse_letter(s, 0, Level::Low, counted);
    lemma_pulse_letter(l, 0, Level::Low, counted);
    lemma_symbol(s, 0, Level::Low, counted);
    lemma_symbol(l, 0, Level::Low, counted);
    lemma_symbol(Symbol::LetterGap, 0, Level::Low, counted);
    lemma_symbol(Symbol::WordGap, 0, Level::Low, counted);
    lemma_occurrences_concat(first_letter, g, counted);
    lemma_occurrences_concat(first_gap, letter(l), counted);
    lemma_occurrences_concat(second_letter, g, counted);
    lemma_occurrences_concat(second_gap, letter(s), counted);
    lemma_occurrences_concat(third_letter, w, counted);
}

/// How often `symbol` occurs in the word.
pub open spec fn symbol_count(symbols: Seq<Symbol>, symbol: Symbol) -> nat
    decreases symbols.len(),
{
    if symbols.len() == 0 {
        0
    } else {
        symbol_count(symbols.drop_last(), symbol) + if symbols.last() == symbol {
            1nat
        } else {
            0nat
        }
    }
}

/// The word has six short pulses, three long pulses, two letter gaps and one
/// word gap, twelve symbols in all.
pub proof fn lemma_word_census()
    ensures
        word().len() == 12,
        symbol_count(word(), Symbol::ShortPulse) == 6,
        symbol_count(word(), Symbol::LongPulse) == 3,
        symbol_count(word(), Symbol::LetterGap) == 2,
        symbol_count(word(), Symbol::WordGap) == 1,
{
    reveal_with_fuel(symbol_count, 13);
}

/// Every cycle is the same: call number `index` of any number of cycles in a
/// row is call number `index` of the endless signal.
pub proof fn lemma_cycles_follow_stream(cycles: nat, index: int)
    requires
        0 <= index < cycles * CYCLE_CALLS,
    ensures
        repeated(cycle_calls(), cycles).len() == cycles * CYCLE_CALLS,
        repeated(cycle_calls(), cycles)[index] == stream(index as nat),
{
    lemma_cycle_layout();
    lemma_repeated_index(cycle_calls(), cycles, index);
}

/// The timetable repeats: cycle number `cycles`, counted from zero, makes the
/// switches of the first cycle, later by the time the cycles before it took.
pub proof fn lemma_schedule_repeats(start_ms: nat, cycles: nat)
    ensures
        switches(start_ms, repeated(cycle_calls(), cycles + 1)) == switches(
            start_ms,
            repeated(cycle_calls(), cycles),
        ) + cycle_switches((start_ms + cycles * CYCLE_MS) as nat),
        elapsed_ms(repeated(cycle_calls(), cycles)) == cycles * CYCLE_MS,
{
    lemma_repeated_measure(cycle_calls(), cycles);
    lemma_switches_concat(start_ms, repeated(cycle_calls(), cycles), cycle_calls());
    lemma_cycle_schedule((start_ms + cycles * CYCLE_MS) as nat, Level::Low);
}

} // verus!
