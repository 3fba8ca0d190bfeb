//! Modulation bookkeeping: source identifiers, LFO modes, the
//! fixed-capacity history ring, and the step sequencer's step clock.
//!
//! Sample values themselves are floating point in the instrument; the
//! structures here are generic over the stored value, so the ordering,
//! capacity and stepping rules are stated and proved independently of
//! the arithmetic done on the values.

use vstd::prelude::*;

verus! {

/// Identifies a modulation source.
#[derive(Debug, Clone, Copy, PartialEq, Eq, Hash, Structural)]
pub enum ModSource {
    Lfo1,
    Lfo2,
    Seq1,
    Seq2,
}

/// LFO operating mode.
#[derive(Debug, Clone, Copy, PartialEq, Eq, Structural)]
pub enum LfoMode {
    /// Free-running loop: the phase cycles continuously.
    Loop,
    /// One-shot: triggered on note, plays once then holds at the end.
    Trig,
}

impl Default for LfoMode {
    fn default() -> (m: Self)
        ensures
            m == LfoMode::Loop,
    {
        LfoMode::Loop
    }
}

// ─── Ring buffer ────────────────────────────────────────────────────

/// A fixed-capacity ring buffer holding the `N` most recently pushed
/// values. Once full, each push overwrites the oldest value.
pub struct RingBuffer<T, const N: usize> {
    data: Vec<T>,
    write_pos: usize,
    count: usize,
}

/// The history after pushing `v` onto history `h` in a ring of
/// capacity `n`: appended, dropping the oldest value when full.
pub open spec fn ring_push<T>(h: Seq<T>, v: T, n: nat) -> Seq<T> {
    if h.len() < n {
        h.push(v)
    } else {
        h.drop_first().push(v)
    }
}

/// The history after pushing every element of `s`, in order, onto `h`.
pub open spec fn ring_push_all<T>(h: Seq<T>, s: Seq<T>, n: nat) -> Seq<T>
    decreases s.len(),
{
    if s.len() == 0 {
        h
    } else {
        ring_push(ring_push_all(h, s.drop_last(), n), s.last(), n)
    }
}

impl<T, const N: usize> RingBuffer<T, N> {
    /// Position in `data` of the oldest value.
    pub closed spec fn start(&self) -> int {
        if self.count < N {
            0
        } else {
            self.write_pos as int
        }
    }

    /// Position in `data` of the `i`-th oldest value.
    pub closed spec fn slot(&self, i: int) -> int {
        if self.start() + i < N {
            self.start() + i
        } else {
            self.start() + i - N
        }
    }

    /// Well-formedness: the storage layout that every operation keeps.
    pub closed spec fn wf(&self) -> bool {
        &&& self.count <= N
        &&& self.data.len() == if self.count < N {
            self.count as int
        } else {
            N as int
        }
        &&& (self.write_pos < N || (N == 0 && self.write_pos == 0))
        &&& (self.count < N ==> self.write_pos == self.count)
    }

    /// The stored values from oldest to newest.
    pub closed spec fn view(&self) -> Seq<T> {
        Seq::new(self.count as nat, |i: int| self.data@[self.slot(i)])
    }

    /// Creates an empty ring buffer.
    pub fn new() -> (r: Self)
        ensures
            r.wf(),
            r.view() == Seq::<T>::empty(),
    {
        let r = RingBuffer { data: Vec::new(), write_pos: 0, count: 0 };
        assert(r.view() =~= Seq::<T>::empty());
        r
    }

    /// Pushes a value, overwriting the oldest if full.
    pub fn push(&mut self, value: T)
        requires
            old(self).wf(),
            N > 0,
        ensures
            final(self).wf(),
            final(self).view() == ring_push(old(self).view(), value, N as nat),
    {
        let ghost old_view = self.view();
        if self.count < N {
            self.data.push(value);
            self.count = self.count + 1;
            self.write_pos = if self.write_pos + 1 == N {
                0
            } else {
                self.write_pos + 1
            };
            assert(self.view() =~= old_view.push(value));
        } else {
            let w = self.write_pos;
            self.data.set(w, value);
            self.write_pos = if w + 1 == N {
                0
            } else {
                w + 1
            };
            assert(self.view() =~= old_view.drop_first().push(value));
        }
    }

    /// Number of values currently stored.
    pub fn len(&self) -> (n: usize)
        requires
            self.wf(),
        ensures
            n == self.view().len(),
    {
        self.count
    }

    /// Whether no value is stored.
    pub fn is_empty(&self) -> (b: bool)
        requires
            self.wf(),
        ensures
            b == (self.view().len() == 0),
    {
        self.count == 0
    }

    /// Whether the buffer holds `N` values.
    pub fn is_full(&self) -> (b: bool)
        requires
            self.wf(),
        ensures
            b == (self.view().len() == N),
    {
        self.count == N
    }

    /// The fixed capacity `N`.
    pub fn capacity(&self) -> (n: usize)
        ensures
            n == N,
    {
        N
    }

    /// Removes every value.
    pub fn clear(&mut self)
        requires
            old(self).wf(),
        ensures
            final(self).wf(),
            final(self).view() == Seq::<T>::empty(),
    {
        self.data = Vec::new();
        self.write_pos = 0;
        self.count = 0;
        assert(self.view() =~= Seq::<T>::empty());
    }
}

impl<T: Copy, const N: usize> RingBuffer<T, N> {
    /// The most recently pushed value, if any.
    pub fn newest(&self) -> (r: Option<T>)
        requires
            self.wf(),
        ensures
            r == (if self.view().len() == 0 {
                None
            } else {
                Some(self.view().last())
            }),
    {
        if self.count == 0 {
            return None;
        }
        let idx = if self.write_pos == 0 {
            N - 1
        } else {
            self.write_pos - 1
        };
        Some(self.data[idx])
    }

    /// The oldest stored value, if any.
    pub fn oldest(&self) -> (r: Option<T>)
        requires
            self.wf(),
        ensures
            r == (if self.view().len() == 0 {
                None
            } else {
                Some(self.view()[0])
            }),
    {
        if self.count == 0 {
            return None;
        }
        if self.count < N {
            Some(self.data[0])
        } else {
            Some(self.data[self.write_pos])
        }
    }

    /// The stored values from oldest to newest.
    pub fn iter(&self) -> (v: Vec<T>)
        requires
            self.wf(),
        ensures
            v@ == self.view(),
    {
        let start = if self.count < N {
            0
        } else {
            self.write_pos
        };
        let mut out: Vec<T> = Vec::new();
        let mut i: usize = 0;
        while i < self.count
            invariant
                self.wf(),
                start == self.start(),
                i <= self.count,
                out@ =~= self.view().take(i as int),
            decreases self.count - i,
        {
            let idx = if i < N - start {
                start + i
            } else {
                i - (N - start)
            };
            out.push(self.data[idx]);
            i = i + 1;
        }
        assert(self.view().take(self.count as int) =~= self.view());
        out
    }
}

/// Law: a ring of capacity `n`, filled from empty by the values `s`,
/// holds exactly the last `min(|s|, n)` of them, oldest first.
pub proof fn lemma_ring_keeps_most_recent<T>(s: Seq<T>, n: nat)
    requires
        n > 0,
    ensures
        ring_push_all(Seq::<T>::empty(), s, n) == (if s.len() <= n {
            s
        } else {
            s.subrange(s.len() - n, s.len() as int)
        }),
    decreases s.len(),
{
    if s.len() == 0 {
        assert(s =~= Seq::<T>::empty());
    } else {
        let p = s.drop_last();
        lemma_ring_keeps_most_recent(p, n);
        if s.len() <= n {
            assert(p.push(s.last()) =~= s);
        } else if p.len() < n {
            assert(p.len() == n - 1);
            assert(p.push(s.last()) =~= s);
            assert(s.subrange(s.len() - n, s.len() as int) =~= s);
        } else {
            let q = p.subrange(p.len() - n, p.len() as int);
            assert(q.drop_first().push(s.last()) =~= s.subrange(s.len() - n, s.len() as int));
        }
    }
}

} // verus!

verus! {

// ─── Step sequencer ─────────────────────────────────────────────────

/// Number of step slots a sequencer holds.
pub const MAX_STEPS: usize = 8;

/// How the sequencer advances to the next step.
#[derive(Debug, Clone, Copy, PartialEq, Eq, Structural)]
pub enum StepTrigger {
    /// Advance on every note-on event.
    NoteOn,
    /// Advance every beat (quarter note).
    Beat,
    /// Advance every half beat (eighth note).
    HalfBeat,
    /// Advance every quarter beat (sixteenth note).
    QuarterBeat,
}

impl Default for StepTrigger {
    fn default() -> (t: Self)
        ensures
            t == StepTrigger::NoteOn,
    {
        StepTrigger::NoteOn
    }
}

/// Number of quarter-beats in one division of a beat-driven trigger
/// (a beat is four quarter-beats). Zero for `NoteOn`.
pub open spec fn quarters_per_division(t: StepTrigger) -> int {
    match t {
        StepTrigger::Beat => 4,
        StepTrigger::HalfBeat => 2,
        StepTrigger::QuarterBeat => 1,
        StepTrigger::NoteOn => 0,
    }
}

/// Floor division by a positive divisor.
pub fn floor_div(q: i64, k: i64) -> (r: i64)
    requires
        k > 0,
    ensures
        r as int == (q as int) / (k as int),
{
    if q >= 0 {
        q / k
    } else {
        let a = -(q + 1);
        let d = a / k;
        proof {
            let qi = q as int;
            let ki = k as int;
            let ai = a as int;
            let di = d as int;
            assert(ai == -qi - 1);
            assert(di == ai / ki);
            assert(ai % ki == ai - di * ki) by (nonlinear_arith)
                requires
                    ki > 0,
                    di == ai / ki,
            ;
            assert(0 <= ai - di * ki < ki) by (nonlinear_arith)
                requires
                    ki > 0,
                    di == ai / ki,
                    ai >= 0,
            ;
            assert(qi == (-di - 1) * ki + (ki - 1 - (ai - di * ki))) by (nonlinear_arith)
                requires
                    ai == -qi - 1,
            ;
            vstd::arithmetic::div_mod::lemma_fundamental_div_mod_converse(
                qi,
                ki,
                -di - 1,
                ki - 1 - (ai - di * ki),
            );
        }
        -d - 1
    }
}

/// A step sequencer with 1 to 8 steps, each holding a value of type
/// `V`. The sequencer advances on note events or beat divisions.
pub struct StepSequencer<V> {
    step_values: Vec<V>,
    num_steps: usize,
    current_step: usize,
    trigger: StepTrigger,
    last_quarter: i64,
    initialized: bool,
}

/// The step after `cur` in a cycle of `n` steps.
pub open spec fn next_step(cur: nat, n: nat) -> nat {
    (((cur + 1) as int) % (n as int)) as nat
}

impl<V> StepSequencer<V> {
    /// Well-formedness: eight value slots, 1..=8 active steps, and the
    /// current step inside the active range.
    pub closed spec fn wf(&self) -> bool {
        &&& self.step_values.len() == MAX_STEPS
        &&& 1 <= self.num_steps <= MAX_STEPS
        &&& self.current_step < self.num_steps
    }

    /// The value held in each of the eight slots.
    pub closed spec fn values(&self) -> Seq<V> {
        self.step_values@
    }

    /// Number of active steps.
    pub closed spec fn steps(&self) -> nat {
        self.num_steps as nat
    }

    /// Index of the current step.
    pub closed spec fn step(&self) -> nat {
        self.current_step as nat
    }

    /// The configured trigger source.
    pub closed spec fn trigger_source(&self) -> StepTrigger {
        self.trigger
    }

    /// The quarter-beat position last seen by a beat trigger, once one
    /// has been seen since creation or reset.
    pub closed spec fn last_seen(&self) -> Option<int> {
        if self.initialized {
            Some(self.last_quarter as int)
        } else {
            None
        }
    }

    /// Creates a sequencer whose eight slots hold `initial`, with four
    /// active steps, a beat trigger, and the current step at 0.
    pub fn new(initial: [V; 8]) -> (s: Self)
        where
            V: Copy,
        ensures
            s.wf(),
            s.values() == initial@,
            s.steps() == 4,
            s.step() == 0,
            s.trigger_source() == StepTrigger::Beat,
            s.last_seen() is None,
    {
        let mut values: Vec<V> = Vec::new();
        let mut i: usize = 0;
        while i < 8
            invariant
                i <= 8,
                values@ =~= initial@.take(i as int),
            decreases 8 - i,
        {
            values.push(initial[i]);
            i = i + 1;
        }
        assert(initial@.take(8) =~= initial@);
        StepSequencer {
            step_values: values,
            num_steps: 4,
            current_step: 0,
            trigger: StepTrigger::Beat,
            last_quarter: 0,
            initialized: false,
        }
    }

    /// Returns to the first step and forgets the last beat position.
    pub fn reset(&mut self)
        requires
            old(self).wf(),
        ensures
            final(self).wf(),
            final(self).step() == 0,
            final(self).last_seen() is None,
            final(self).steps() == old(self).steps(),
            final(self).values() == old(self).values(),
            final(self).trigger_source() == old(self).trigger_source(),
    {
        self.current_step = 0;
        self.last_quarter = 0;
        self.initialized = false;
    }

    /// Index of the current step.
    pub fn current_step(&self) -> (n: usize)
        requires
            self.wf(),
        ensures
            n == self.step(),
    {
        self.current_step
    }

    /// Sets the number of active steps, clamped to 1..=8. The current
    /// step returns to 0 when it falls outside the new range.
    pub fn set_num_steps(&mut self, n: usize)
        requires
            old(self).wf(),
        ensures
            final(self).wf(),
            final(self).steps() == (if n < 1 {
                1
            } else if n > 8 {
                8
            } else {
                n as nat
            }),
            final(self).step() == (if old(self).step() < final(self).steps() {
                old(self).step()
            } else {
                0
            }),
            final(self).values() == old(self).values(),
            final(self).trigger_source() == old(self).trigger_source(),
            final(self).last_seen() == old(self).last_seen(),
    {
        self.num_steps = if n < 1 {
            1
        } else if n > MAX_STEPS {
            MAX_STEPS
        } else {
            n
        };
        if self.current_step >= self.num_steps {
            self.current_step = 0;
        }
    }

    /// Stores `value` in slot `index`; indices past the last slot are
    /// ignored. The value is stored as given: bounding it to the step
    /// range is the caller's.
    pub fn set_step_value(&mut self, index: usize, value: V)
        requires
            old(self).wf(),
        ensures
            final(self).wf(),
            final(self).values() == (if index < MAX_STEPS {
                old(self).values().update(index as int, value)
            } else {
                old(self).values()
            }),
            final(self).steps() == old(self).steps(),
            final(self).step() == old(self).step(),
            final(self).trigger_source() == old(self).trigger_source(),
            final(self).last_seen() == old(self).last_seen(),
    {
        if index < MAX_STEPS {
            self.step_values.set(index, value);
        }
    }

    /// Sets the trigger source.
    pub fn set_trigger(&mut self, trigger: StepTrigger)
        requires
            old(self).wf(),
        ensures
            final(self).wf(),
            final(self).trigger_source() == trigger,
            final(self).steps() == old(self).steps(),
            final(self).step() == old(self).step(),
            final(self).values() == old(self).values(),
            final(self).last_seen() == old(self).last_seen(),
    {
        self.trigger = trigger;
    }

    #[verifier::spinoff_prover]
    fn advance(&mut self)
        requires
            old(self).wf(),
        ensures
            final(self).wf(),
            final(self).step() == next_step(old(self).step(), old(self).steps()),
            final(self).steps() == old(self).steps(),
            final(self).values() == old(self).values(),
            final(self).trigger_source() == old(self).trigger_source(),
            final(self).last_seen() == old(self).last_seen(),
    {
        self.current_step = if self.current_step + 1 == self.num_steps {
            0
        } else {
            self.current_step + 1
        };
        assert(self.current_step == (old(self).current_step + 1) % (self.num_steps as int)) by {
            if old(self).current_step + 1 < self.num_steps {
                vstd::arithmetic::div_mod::lemma_small_mod(
                    (old(self).current_step + 1) as nat,
                    self.num_steps as nat,
                );
            } else {
                vstd::arithmetic::div_mod::lemma_mod_self_0(self.num_steps as int);
            }
        }
    }

    /// On a note-on: advances one step when the trigger is `NoteOn`.
    /// Returns whether it stepped.
    pub fn check_note_trigger(&mut self) -> (stepped: bool)
        requires
            old(self).wf(),
        ensures
            final(self).wf(),
            stepped == (old(self).trigger_source() == StepTrigger::NoteOn),
            final(self).step() == (if stepped {
                next_step(old(self).step(), old(self).steps())
            } else {
                old(self).step()
            }),
            final(self).steps() == old(self).steps(),
            final(self).values() == old(self).values(),
            final(self).trigger_source() == old(self).trigger_source(),
            final(self).last_seen() == old(self).last_seen(),
    {
        if self.trigger != StepTrigger::NoteOn {
            return false;
        }
        self.advance();
        true
    }

    /// On a transport update at quarter-beat position `quarter` (the
    /// beat position times four, rounded down): for a beat-driven
    /// trigger, advances one step when the position has entered a new
    /// division since the last update. The first update after creation
    /// or reset only records the position. Returns whether it stepped.
    pub fn check_beat_trigger(&mut self, quarter: i64) -> (stepped: bool)
        requires
            old(self).wf(),
        ensures
            final(self).wf(),
            stepped == (old(self).trigger_source() != StepTrigger::NoteOn
                && old(self).last_seen() is Some && (quarter as int) / quarters_per_division(
                old(self).trigger_source(),
            ) > old(self).last_seen()->0 / quarters_per_division(old(self).trigger_source())),
            final(self).step() == (if stepped {
                next_step(old(self).step(), old(self).steps())
            } else {
                old(self).step()
            }),
            final(self).last_seen() == (if old(self).trigger_source() == StepTrigger::NoteOn {
                old(self).last_seen()
            } else {
                Some(quarter as int)
            }),
            final(self).steps() == old(self).steps(),
            final(self).values() == old(self).values(),
            final(self).trigger_source() == old(self).trigger_source(),
    {
        if self.trigger == StepTrigger::NoteOn {
            return false;
        }
        if !self.initialized {
            self.last_quarter = quarter;
            self.initialized = true;
            return false;
        }
        let k: i64 = match self.trigger {
            StepTrigger::Beat => 4,
            StepTrigger::HalfBeat => 2,
            StepTrigger::QuarterBeat => 1,
            StepTrigger::NoteOn => 1,
        };
        let prev_div = floor_div(self.last_quarter, k);
        let curr_div = floor_div(quarter, k);
        self.last_quarter = quarter;
        if curr_div > prev_div {
            self.advance();
            return true;
        }
        false
    }
}

impl<V: Copy> StepSequencer<V> {
    /// The current step's value.
    pub fn current_value(&self) -> (v: V)
        requires
            self.wf(),
        ensures
            v == self.values()[self.step() as int],
    {
        self.step_values[self.current_step]
    }

    /// The value in slot `index`; past the last slot, the value type's
    /// default (zero for numbers).
    pub fn get_step_value(&self, index: usize) -> (v: V)
        where
            V: Default,
        requires
            self.wf(),
        ensures
            index < MAX_STEPS ==> v == self.values()[index as int],
            index >= MAX_STEPS ==> call_ensures(V::default, (), v),
    {
        if index < MAX_STEPS {
            self.step_values[index]
        } else {
            V::default()
        }
    }
}

/// The step reached from `cur` after `k` advances in a cycle of `n`.
pub open spec fn steps_after(cur: nat, n: nat, k: nat) -> nat
    decreases k,
{
    if k == 0 {
        cur
    } else {
        next_step(steps_after(cur, n, (k - 1) as nat), n)
    }
}

/// Law: `k` advances from step `cur` land on `(cur + k) mod n`; in
/// particular `n` advances return the sequencer to where it started.
pub proof fn lemma_steps_wrap(cur: nat, n: nat, k: nat)
    requires
        n >= 1,
        cur < n,
    ensures
        steps_after(cur, n, k) == ((cur + k) as int) % (n as int),
    decreases k,
{
    if k == 0 {
        vstd::arithmetic::div_mod::lemma_small_mod(cur, n);
    } else {
        lemma_steps_wrap(cur, n, (k - 1) as nat);
        let prev = steps_after(cur, n, (k - 1) as nat);
        vstd::arithmetic::div_mod::lemma_add_mod_noop((cur + k - 1) as int, 1, n as int);
        vstd::arithmetic::div_mod::lemma_add_mod_noop(prev as int, 1, n as int);
        vstd::arithmetic::div_mod::lemma_mod_twice((cur + k - 1) as int, n as int);
    }
}

} // verus!
