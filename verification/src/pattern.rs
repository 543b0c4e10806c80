//! The guest's pattern generator: the distress signal as a sequence of
//! capability calls, three short pulses, three long pulses, three short
//! pulses, repeated without end.

use vstd::prelude::*;
use crate::capability::{Blinky, CapabilityCall};
use crate::trace::repeated;

verus! {

/// Milliseconds the output stays active during a short pulse.
pub const SHORT_ON_MS: u32 = 100;

/// Milliseconds the output stays active during a long pulse.
pub const LONG_ON_MS: u32 = 400;

/// Milliseconds the output stays inactive at the end of every pulse.
pub const PULSE_GAP_MS: u32 = 100;

/// Milliseconds of silence between two letters.
pub const LETTER_GAP_MS: u32 = 200;

/// Milliseconds of silence before the word starts again.
pub const WORD_GAP_MS: u32 = 1000;

/// Number of symbols in one word.
pub const WORD_SYMBOLS: usize = 12;

/// Number of capability calls in one cycle.
pub const CYCLE_CALLS: usize = 39;

/// The four symbols the signal is made of.
#[derive(Clone, Copy, Debug, PartialEq, Eq, Structural)]
pub enum Symbol {
    /// Output active for a short time, then inactive for the pulse gap.
    ShortPulse,
    /// Output active for a long time, then inactive for the pulse gap.
    LongPulse,
    /// Silence between two letters.
    LetterGap,
    /// Silence after the last letter.
    WordGap,
}

/// The capability calls that make up one symbol.
pub open spec fn symbol_calls(symbol: Symbol) -> Seq<CapabilityCall> {
    match symbol {
        Symbol::ShortPulse => seq![
            CapabilityCall::Activate,
            CapabilityCall::Delay(SHORT_ON_MS),
            CapabilityCall::Deactivate,
            CapabilityCall::Delay(PULSE_GAP_MS),
        ],
        Symbol::LongPulse => seq![
            CapabilityCall::Activate,
            CapabilityCall::Delay(LONG_ON_MS),
            CapabilityCall::Deactivate,
            CapabilityCall::Delay(PULSE_GAP_MS),
        ],
        Symbol::LetterGap => seq![CapabilityCall::Delay(LETTER_GAP_MS)],
        Symbol::WordGap => seq![CapabilityCall::Delay(WORD_GAP_MS)],
    }
}

/// The word: three short pulses, three long pulses, three short pulses, with
/// a letter gap between the letters and a word gap at the end.
pub open spec fn word() -> Seq<Symbol> {
    seq![
        Symbol::ShortPulse,
        Symbol::ShortPulse,
        Symbol::ShortPulse,
        Symbol::LetterGap,
        Symbol::LongPulse,
        Symbol::LongPulse,
        Symbol::LongPulse,
        Symbol::LetterGap,
        Symbol::ShortPulse,
        Symbol::ShortPulse,
        Symbol::ShortPulse,
        Symbol::WordGap,
    ]
}

/// The capability calls of `symbols`, one symbol after the other.
pub open spec fn calls_of(symbols: Seq<Symbol>) -> Seq<CapabilityCall>
    decreases symbols.len(),
{
    if symbols.len() == 0 {
        Seq::empty()
    } else {
        calls_of(symbols.drop_last()) + symbol_calls(symbols.last())
    }
}

/// The capability calls of one full cycle.
pub open spec fn cycle_calls() -> Seq<CapabilityCall> {
    calls_of(word())
}

/// Three times the calls of `symbol`.
pub open spec fn letter(symbol: Symbol) -> Seq<CapabilityCall> {
    repeated(symbol_calls(symbol), 3)
}

/// The endless sequence of calls the generator makes: call number `index`
/// counted from the first call of the first cycle.
pub open spec fn stream(index: nat) -> CapabilityCall {
    cycle_calls()[(index % (CYCLE_CALLS as nat)) as int]
}

impl Symbol {
    /// Number of capability calls the symbol is made of.
    pub fn call_count(self) -> (count: usize)
        ensures
            count == symbol_calls(self).len(),
            1 <= count <= 4,
    {
        match self {
            Symbol::ShortPulse => 4,
            Symbol::LongPulse => 4,
            Symbol::LetterGap => 1,
            Symbol::WordGap => 1,
        }
    }

    /// Call number `phase` of the symbol, if it has that many calls.
    pub fn call(self, phase: usize) -> (call: Option<CapabilityCall>)
        ensures
            call == if phase < symbol_calls(self).len() {
                Some(symbol_calls(self)[phase as int])
            } else {
                None
            },
    {
        match self {
            Symbol::ShortPulse => pulse_call(SHORT_ON_MS, phase),
            Symbol::LongPulse => pulse_call(LONG_ON_MS, phase),
            Symbol::LetterGap => if phase == 0 {
                Some(CapabilityCall::Delay(LETTER_GAP_MS))
            } else {
                None
            },
            Symbol::WordGap => if phase == 0 {
                Some(CapabilityCall::Delay(WORD_GAP_MS))
            } else {
                None
            },
        }
    }
}

/// Call number `phase` of a pulse that keeps the output active for `on_ms`
/// milliseconds.
fn pulse_call(on_ms: u32, phase: usize) -> (call: Option<CapabilityCall>)
    ensures
        call == if phase < 4 {
            Some(
                seq![
                    CapabilityCall::Activate,
                    CapabilityCall::Delay(on_ms),
                    CapabilityCall::Deactivate,
                    CapabilityCall::Delay(PULSE_GAP_MS),
                ][phase as int],
            )
        } else {
            None
        },
{
    if phase == 0 {
        Some(CapabilityCall::Activate)
    } else if phase == 1 {
        Some(CapabilityCall::Delay(on_ms))
    } else if phase == 2 {
        Some(CapabilityCall::Deactivate)
    } else if phase == 3 {
        Some(CapabilityCall::Delay(PULSE_GAP_MS))
    } else {
        None
    }
}

/// Symbol number `slot` of the word, if the word has that many symbols.
pub fn word_symbol(slot: usize) -> (symbol: Option<Symbol>)
    ensures
        symbol == if slot < word().len() {
            Some(word()[slot as int])
        } else {
            None
        },
        word().len() == WORD_SYMBOLS,
{
    if slot < 3 {
        Some(Symbol::ShortPulse)
    } else if slot == 3 {
        Some(Symbol::LetterGap)
    } else if slot < 7 {
        Some(Symbol::LongPulse)
    } else if slot == 7 {
        Some(Symbol::LetterGap)
    } else if slot < 11 {
        Some(Symbol::ShortPulse)
    } else if slot == 11 {
        Some(Symbol::WordGap)
    } else {
        None
    }
}

/// The guest program.
pub struct MyGuest;

impl MyGuest {
    /// Makes one short pulse.
    pub fn dot<H: Blinky>(host: &mut H)
        ensures
            final(host).history() == old(host).history() + symbol_calls(Symbol::ShortPulse),
    {
        host.activate();
        host.delay(SHORT_ON_MS);
        host.deactivate();
        host.delay(PULSE_GAP_MS);
    }

    /// Makes one long pulse.
    pub fn dash<H: Blinky>(host: &mut H)
        ensures
            final(host).history() == old(host).history() + symbol_calls(Symbol::LongPulse),
    {
        host.activate();
        host.delay(LONG_ON_MS);
        host.deactivate();
        host.delay(PULSE_GAP_MS);
    }

    /// Makes the calls of one full cycle.
    pub fn sos<H: Blinky>(host: &mut H)
        ensures
            final(host).history() == old(host).history() + cycle_calls(),
    {
        let ghost before = host.history();

        let mut sent: u8 = 0;
        while sent < 3
            invariant
                sent <= 3,
                host.history() == before + repeated(
                    symbol_calls(Symbol::ShortPulse),
                    sent as nat,
                ),
            decreases 3 - sent,
        {
            Self::dot(host);
            sent += 1;
        }
        host.delay(LETTER_GAP_MS);
        let ghost after_first = host.history();

        let mut sent: u8 = 0;
        while sent < 3
            invariant
                sent <= 3,
                host.history() == after_first + repeated(
                    symbol_calls(Symbol::LongPulse),
                    sent as nat,
                ),
            decreases 3 - sent,
        {
            Self::dash(host);
            sent += 1;
        }
        host.delay(LETTER_GAP_MS);
        let ghost after_second = host.history();

        let mut sent: u8 = 0;
        while sent < 3
            invariant
                sent <= 3,
                host.history() == after_second + repeated(
                    symbol_calls(Symbol::ShortPulse),
                    sent as nat,
                ),
            decreases 3 - sent,
        {
            Self::dot(host);
            sent += 1;
        }
        host.delay(WORD_GAP_MS);

        proof {
            lemma_cycle_layout();
            assert(host.history() =~= before + cycle_calls());
        }
    }

    /// Makes the calls of `cycles` full cycles, one cycle after the other.
    pub fn run<H: Blinky>(host: &mut H, cycles: u64)
        ensures
            final(host).history() == old(host).history() + repeated(
                cycle_calls(),
                cycles as nat,
            ),
    {
        let ghost before = host.history();
        let mut done: u64 = 0;
        while done < cycles
            invariant
                done <= cycles,
                host.history() == before + repeated(cycle_calls(), done as nat),
            decreases cycles - done,
        {
            Self::sos(host);
            done += 1;
        }
    }
}

/// The state the generator is in after it has sent call number `phase` of
/// symbol number `slot`: the next call of the same symbol, or else the first
/// call of the next symbol, or else the first call of the word.
pub open spec fn position_after(slot: nat, phase: nat) -> (nat, nat) {
    if phase + 1 < symbol_calls(word()[slot as int]).len() {
        (slot, phase + 1)
    } else if slot + 1 < word().len() {
        (slot + 1, 0)
    } else {
        (0, 0)
    }
}

/// The pattern generator as a state machine that hands out one capability
/// call at a time and has no final state.
pub struct PatternGenerator {
    slot: usize,
    phase: usize,
    emitted: Ghost<nat>,
}

impl PatternGenerator {
    #[verifier::type_invariant]
    spec fn well_formed(self) -> bool {
        &&& self.slot < word().len()
        &&& self.phase < symbol_calls(word()[self.slot as int]).len()
        &&& calls_of(word().take(self.slot as int)).len() + self.phase == self.emitted@ % (
            CYCLE_CALLS as nat
        )
    }

    /// Number of the symbol of the word that is being sent.
    pub closed spec fn slot(&self) -> nat {
        self.slot as nat
    }

    /// Number of the next call within the symbol that is being sent.
    pub closed spec fn phase(&self) -> nat {
        self.phase as nat
    }

    /// Number of calls handed out so far.
    pub closed spec fn emitted(&self) -> nat {
        self.emitted@
    }

    /// A generator at the first call of the first cycle.
    pub fn new() -> (generator: PatternGenerator)
        ensures
            generator.slot() == 0,
            generator.phase() == 0,
            generator.emitted() == 0,
    {
        PatternGenerator { slot: 0, phase: 0, emitted: Ghost(0) }
    }

    /// The symbol that is being sent.
    pub fn symbol(&self) -> (symbol: Symbol)
        ensures
            self.slot() < word().len(),
            symbol == word()[self.slot() as int],
            self.phase() < symbol_calls(symbol).len(),
    {
        proof {
            use_type_invariant(self);
        }
        word_symbol(self.slot).unwrap()
    }

    /// Whether the next call is the first call of a cycle.
    pub fn at_cycle_start(&self) -> (at_start: bool)
        ensures
            at_start == (self.emitted() % (CYCLE_CALLS as nat) == 0),
            at_start == (self.slot() == 0 && self.phase() == 0),
    {
        proof {
            use_type_invariant(self);
        }
        self.slot == 0 && self.phase == 0
    }

    /// Hands out the next call of the endless signal and moves on.
    pub fn next_call(&mut self) -> (call: CapabilityCall)
        ensures
            call == stream(old(self).emitted()),
            call == symbol_calls(word()[old(self).slot() as int])[old(self).phase() as int],
            final(self).emitted() == old(self).emitted() + 1,
            (final(self).slot(), final(self).phase()) == position_after(
                old(self).slot(),
                old(self).phase(),
            ),
    {
        proof {
            use_type_invariant(&*self);
            lemma_calls_of_index(word(), self.slot as int, self.phase as int);
            lemma_cycle_layout();
        }
        let symbol = word_symbol(self.slot).unwrap();
        let call = symbol.call(self.phase).unwrap();
        let (slot, phase) = if self.phase + 1 < symbol.call_count() {
            (self.slot, self.phase + 1)
        } else if self.slot + 1 < WORD_SYMBOLS {
            (self.slot + 1, 0)
        } else {
            (0, 0)
        };
        *self = PatternGenerator { slot, phase, emitted: Ghost(self.emitted@ + 1) };
        call
    }
}

/// The calls of a sequence of symbols that ends in `symbol` are those of the
/// symbols before it, followed by those of `symbol`.
pub proof fn lemma_calls_of_push(symbols: Seq<Symbol>, symbol: Symbol)
    ensures
        calls_of(symbols.push(symbol)) == calls_of(symbols) + symbol_calls(symbol),
{
    assert(symbols.push(symbol).drop_last() =~= symbols);
}

/// The calls of two sequences of symbols in a row.
pub proof fn lemma_calls_of_concat(first: Seq<Symbol>, second: Seq<Symbol>)
    ensures
        calls_of(first + second) == calls_of(first) + calls_of(second),
    decreases second.len(),
{
    if second.len() > 0 {
        lemma_calls_of_concat(first, second.drop_last());
        assert((first + second).drop_last() =~= first + second.drop_last());
    }
}

/// Where the calls of one symbol lie among the calls of a whole sequence of
/// symbols: right after the calls of the symbols before it.
pub proof fn lemma_calls_of_index(symbols: Seq<Symbol>, slot: int, phase: int)
    requires
        0 <= slot < symbols.len(),
        0 <= phase < symbol_calls(symbols[slot]).len(),
    ensures
        calls_of(symbols.take(slot)).len() + phase < calls_of(symbols).len(),
        calls_of(symbols)[calls_of(symbols.take(slot)).len() + phase] == symbol_calls(
            symbols[slot],
        )[phase],
        calls_of(symbols.take(slot + 1)) == calls_of(symbols.take(slot)) + symbol_calls(
            symbols[slot],
        ),
{
    let head = symbols.take(slot);
    let tail = symbols.skip(slot + 1);
    assert(symbols.take(slot + 1) =~= head.push(symbols[slot]));
    lemma_calls_of_push(head, symbols[slot]);
    assert(symbols =~= symbols.take(slot + 1) + tail);
    lemma_calls_of_concat(symbols.take(slot + 1), tail);
}

/// One cycle is the letter of short pulses, a letter gap, the letter of long
/// pulses, a letter gap, the letter of short pulses and a word gap.
pub proof fn lemma_cycle_layout()
    ensures
        cycle_calls() == letter(Symbol::ShortPulse) + symbol_calls(Symbol::LetterGap) + letter(
            Symbol::LongPulse,
        ) + symbol_calls(Symbol::LetterGap) + letter(Symbol::ShortPulse) + symbol_calls(
            Symbol::WordGap,
        ),
        cycle_calls().len() == CYCLE_CALLS,
{
    let s = Symbol::ShortPulse;
    let l = Symbol::LongPulse;
    let g = Symbol::LetterGap;
    let w = Symbol::WordGap;
    let w0 = Seq::<Symbol>::empty();
    let w1 = w0.push(s);
    let w2 = w1.push(s);
    let w3 = w2.push(s);
    let w4 = w3.push(g);
    let w5 = w4.push(l);
    let w6 = w5.push(l);
    let w7 = w6.push(l);
    let w8 = w7.push(g);
    let w9 = w8.push(s);
    let w10 = w9.push(s);
    let w11 = w10.push(s);
    let w12 = w11.push(w);
    assert(word() =~= w12);
    lemma_calls_of_push(w0, s);
    lemma_calls_of_push(w1, s);
    lemma_calls_of_push(w2, s);
    lemma_calls_of_push(w3, g);
    lemma_calls_of_push(w4, l);
    lemma_calls_of_push(w5, l);
    lemma_calls_of_push(w6, l);
    lemma_calls_of_push(w7, g);
    lemma_calls_of_push(w8, s);
    lemma_calls_of_push(w9, s);
    lemma_calls_of_push(w10, s);
    lemma_calls_of_push(w11, w);
    lemma_letter(s);
    lemma_letter(l);
}

/// A letter is its symbol three times in a row.
pub proof fn lemma_letter(symbol: Symbol)
    ensures
        letter(symbol) == symbol_calls(symbol) + symbol_calls(symbol) + symbol_calls(symbol),
{
    let calls = symbol_calls(symbol);
    assert(repeated(calls, 0) =~= Seq::<CapabilityCall>::empty());
    assert(repeated(calls, 1) =~= calls);
    assert(repeated(calls, 2) =~= calls + calls);
}

} // verus!
