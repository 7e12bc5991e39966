//! Sequences: timed scripts that feed commands back into the engine.
//!
//! A sequence instance walks an ordered list of steps. Each update adds the
//! elapsed time and then performs every step that is due: a wait step blocks
//! until its duration has accumulated; an emit step yields one command.
//! Emitted commands join the processor's queue for the next frame, keeping
//! the per-frame pipeline non-reentrant. A muted sequence keeps waiting but
//! emits nothing. A sequence whose steps are exhausted is finished and moves
//! to the reclamation channel.

use vstd::prelude::*;
use crate::fixed::{SCALAR_MAX, TIME_MAX, add_time_saturating};
use crate::table::{Table, unique_keys, spec_index_of, spec_contains, spec_table_insert,
    spec_table_remove, lemma_index_of};
use crate::command::{SequenceCommand, SequenceOutputCommand};
use crate::channel::channel_push;

verus! {

#[derive(Clone, Copy, Debug, PartialEq, Eq, Structural)]
pub struct SequenceId(pub u64);

#[derive(Clone, Copy, Debug, PartialEq, Eq, Structural)]
pub enum SequenceStep {
    /// Block until this many fixed-point seconds have accumulated.
    Wait(i64),
    /// Yield one command toward the engine.
    Emit(SequenceOutputCommand),
}

#[derive(Clone, Debug)]
pub struct SequenceInstance {
    pub steps: Vec<SequenceStep>,
    /// Next step to perform.
    pub index: usize,
    /// Time accumulated toward the current wait step.
    pub wait_elapsed: i64,
    pub muted: bool,
    pub paused: bool,
}

pub open spec fn sequence_ok(s: SequenceInstance) -> bool {
    &&& s.index <= s.steps@.len()
    &&& 0 <= s.wait_elapsed <= TIME_MAX
}

/// A wait step's effective duration: negative payloads wait for nothing.
pub open spec fn spec_wait_of(st: SequenceStep) -> int {
    match st {
        SequenceStep::Wait(d) => if d < 0 {
            0int
        } else {
            d as int
        },
        SequenceStep::Emit(_) => 0,
    }
}

/// Perform every due step from `index` on: the resulting index, the leftover
/// accumulated wait, and the emitted commands in step order.
pub open spec fn spec_seq_drain(steps: Seq<SequenceStep>, index: int, wait: int, muted: bool) -> (
    int,
    int,
    Seq<SequenceOutputCommand>,
)
    recommends
        0 <= index <= steps.len(),
        0 <= wait,
    decreases steps.len() - index,
{
    if index < 0 || index >= steps.len() {
        (index, wait, Seq::empty())
    } else {
        match steps[index] {
            SequenceStep::Wait(d) => {
                let need = spec_wait_of(steps[index]);
                if wait >= need {
                    spec_seq_drain(steps, index + 1, wait - need, muted)
                } else {
                    (index, wait, Seq::empty())
                }
            },
            SequenceStep::Emit(c) => {
                let (i2, w2, out) = spec_seq_drain(steps, index + 1, wait, muted);
                (
                    i2,
                    w2,
                    if muted {
                        out
                    } else {
                        seq![c] + out
                    },
                )
            },
        }
    }
}

/// One update of a single sequence: paused sequences hold still; otherwise
/// `dt` accumulates and the due steps run. The third component says whether
/// the sequence has finished.
pub open spec fn spec_seq_advance(s: SequenceInstance, dt: int) -> (
    SequenceInstance,
    Seq<SequenceOutputCommand>,
    bool,
) {
    if s.paused {
        (s, Seq::empty(), s.index >= s.steps@.len())
    } else {
        let w1 = if s.wait_elapsed + dt <= TIME_MAX as int {
            s.wait_elapsed + dt
        } else {
            TIME_MAX as int
        };
        let (i2, w2, out) = spec_seq_drain(s.steps@, s.index as int, w1, s.muted);
        (
            SequenceInstance {
                steps: s.steps,
                index: i2 as usize,
                wait_elapsed: w2 as i64,
                muted: s.muted,
                paused: false,
            },
            out,
            i2 >= s.steps@.len(),
        )
    }
}

impl SequenceInstance {
    /// A fresh sequence over the given steps, at the beginning, unmuted and
    /// running.
    pub fn new(steps: Vec<SequenceStep>) -> (s: SequenceInstance)
        ensures
            s == (SequenceInstance {
                steps,
                index: 0usize,
                wait_elapsed: 0i64,
                muted: false,
                paused: false,
            }),
            sequence_ok(s),
    {
        SequenceInstance { steps, index: 0, wait_elapsed: 0, muted: false, paused: false }
    }

    /// One update step; returns the emitted commands and whether the
    /// sequence has finished.
    pub fn advance(&mut self, dt: i64) -> (r: (Vec<SequenceOutputCommand>, bool))
        requires
            sequence_ok(*old(self)),
            0 <= dt <= SCALAR_MAX,
        ensures
            (*final(self), r.0@, r.1) == spec_seq_advance(*old(self), dt as int),
            sequence_ok(*final(self)),
    {
        let n = self.steps.len();
        if self.paused {
            return (Vec::new(), self.index >= n);
        }
        self.wait_elapsed = add_time_saturating(self.wait_elapsed, dt);
        let mut out: Vec<SequenceOutputCommand> = Vec::new();
        let ghost w1 = self.wait_elapsed as int;
        proof {
            let (i2, w2, rest) = spec_seq_drain(
                self.steps@,
                self.index as int,
                self.wait_elapsed as int,
                self.muted,
            );
            assert(out@ + rest =~= rest);
        }
        while self.index < n
            invariant
                n == self.steps@.len(),
                sequence_ok(*self),
                sequence_ok(*old(self)),
                self.steps == old(self).steps,
                self.muted == old(self).muted,
                !self.paused,
                !old(self).paused,
                0 <= dt <= SCALAR_MAX,
                w1 == if old(self).wait_elapsed + dt <= TIME_MAX as int {
                    old(self).wait_elapsed + dt
                } else {
                    TIME_MAX as int
                },
                spec_seq_drain(self.steps@, old(self).index as int, w1, self.muted) == ({
                    let (i2, w2, rest) = spec_seq_drain(
                        self.steps@,
                        self.index as int,
                        self.wait_elapsed as int,
                        self.muted,
                    );
                    (i2, w2, out@ + rest)
                }),
            decreases n - self.index,
        {
            let step = self.steps[self.index];
            match step {
                SequenceStep::Wait(d) => {
                    let need = if d < 0 {
                        0
                    } else {
                        d
                    };
                    if self.wait_elapsed >= need {
                        self.wait_elapsed = self.wait_elapsed - need;
                        self.index = self.index + 1;
                    } else {
                        proof {
                            assert(out@ + Seq::<SequenceOutputCommand>::empty() =~= out@);
                            let sp = spec_seq_advance(*old(self), dt as int);
                            assert(sp.2 == false);
                            assert(sp.1 == out@);
                            assert(sp.0 == *self);
                        }
                        return (out, false);
                    }
                },
                SequenceStep::Emit(c) => {
                    let ghost out0 = out@;
                    if !self.muted {
                        out.push(c);
                    }
                    self.index = self.index + 1;
                    proof {
                        let (i2, w2, rest2) = spec_seq_drain(
                            self.steps@,
                            self.index as int,
                            self.wait_elapsed as int,
                            self.muted,
                        );
                        if !self.muted {
                            assert(out0 + (seq![c] + rest2) =~= out0.push(c) + rest2);
                            assert(out@ == out0.push(c));
                        }
                    }
                },
            }
        }
        proof {
            assert(out@ + Seq::<SequenceOutputCommand>::empty() =~= out@);
        }
        (out, true)
    }
}

/// The running-sequence registry.
pub struct Sequences {
    table: Table<SequenceInstance>,
}

/// A start command resets its payload to the beginning; every other command
/// on an unknown id is a no-op. Stop removes the sequence; the removed
/// instance goes to the reclamation channel, which the view does not record.
pub open spec fn spec_sequences_apply(
    s: Seq<(u64, SequenceInstance)>,
    cmd: SequenceCommand,
) -> Seq<(u64, SequenceInstance)> {
    match cmd {
        SequenceCommand::StartSequence(id, inst) => spec_table_insert(
            s,
            id.0,
            SequenceInstance {
                steps: inst.steps,
                index: 0,
                wait_elapsed: 0,
                muted: false,
                paused: false,
            },
        ),
        SequenceCommand::MuteSequence(id) => spec_set_flags(s, id.0, Some(true), None),
        SequenceCommand::UnmuteSequence(id) => spec_set_flags(s, id.0, Some(false), None),
        SequenceCommand::PauseSequence(id) => spec_set_flags(s, id.0, None, Some(true)),
        SequenceCommand::ResumeSequence(id) => spec_set_flags(s, id.0, None, Some(false)),
        SequenceCommand::StopSequence(id) => spec_table_remove(s, id.0),
    }
}

pub open spec fn spec_set_flags(
    s: Seq<(u64, SequenceInstance)>,
    k: u64,
    muted: Option<bool>,
    paused: Option<bool>,
) -> Seq<(u64, SequenceInstance)> {
    let i = spec_index_of(s, k);
    if i >= 0 {
        s.update(
            i,
            (
                k,
                SequenceInstance {
                    muted: match muted {
                        Some(m) => m,
                        None => s[i].1.muted,
                    },
                    paused: match paused {
                        Some(p) => p,
                        None => s[i].1.paused,
                    },
                    ..s[i].1
                },
            ),
        )
    } else {
        s
    }
}

/// One update pass over all sequences, first registered first: each advances
/// and emits; finished ones leave the registry.
pub open spec fn spec_sequences_update(s: Seq<(u64, SequenceInstance)>, dt: int) -> (
    Seq<(u64, SequenceInstance)>,
    Seq<SequenceOutputCommand>,
)
    decreases s.len(),
{
    if s.len() == 0 {
        (Seq::empty(), Seq::empty())
    } else {
        let (inst2, out1, fin) = spec_seq_advance(s[0].1, dt);
        let (rem, out2) = spec_sequences_update(s.drop_first(), dt);
        (
            if fin {
                rem
            } else {
                seq![(s[0].0, inst2)] + rem
            },
            out1 + out2,
        )
    }
}

impl Sequences {
    pub closed spec fn view(&self) -> Seq<(u64, SequenceInstance)> {
        self.table@
    }

    pub open spec fn wf(&self) -> bool {
        &&& unique_keys(self@)
        &&& forall|i: int| 0 <= i < self@.len() ==> sequence_ok((#[trigger] self@[i]).1)
    }

    pub fn new() -> (r: Sequences)
        ensures
            r@ == Seq::<(u64, SequenceInstance)>::empty(),
            r.wf(),
    {
        Sequences { table: Table::new() }
    }

    /// Apply one sequence command; stop hands the removed instance back for
    /// reclamation.
    pub fn run_command(&mut self, cmd: SequenceCommand) -> (removed: Option<SequenceInstance>)
        requires
            old(self).wf(),
        ensures
            final(self)@ == spec_sequences_apply(old(self)@, cmd),
            final(self).wf(),
            removed == match cmd {
                SequenceCommand::StopSequence(id) => if spec_contains(old(self)@, id.0) {
                    Some(old(self)@[spec_index_of(old(self)@, id.0)].1)
                } else {
                    None::<SequenceInstance>
                },
                _ => None::<SequenceInstance>,
            },
    {
        match cmd {
            SequenceCommand::StartSequence(id, inst) => {
                self.table.insert(id.0, SequenceInstance::new(inst.steps));
                proof {
                    let s = old(self)@;
                    let i = spec_index_of(s, id.0);
                    lemma_index_of(s, id.0);
                    assert forall|j: int| 0 <= j < self@.len() implies sequence_ok(
                        (#[trigger] self@[j]).1,
                    ) by {
                        if i >= 0 {
                            if j != i {
                                assert(self@[j] == s[j]);
                            }
                        } else {
                            if j < s.len() {
                                assert(self@[j] == s[j]);
                            }
                        }
                    }
                }
                None
            },
            SequenceCommand::MuteSequence(id) => {
                self.set_flags(id, Some(true), None);
                None
            },
            SequenceCommand::UnmuteSequence(id) => {
                self.set_flags(id, Some(false), None);
                None
            },
            SequenceCommand::PauseSequence(id) => {
                self.set_flags(id, None, Some(true));
                None
            },
            SequenceCommand::ResumeSequence(id) => {
                self.set_flags(id, None, Some(false));
                None
            },
            SequenceCommand::StopSequence(id) => {
                let removed = self.table.remove(id.0);
                proof {
                    let s = old(self)@;
                    let i = spec_index_of(s, id.0);
                    lemma_index_of(s, id.0);
                    assert forall|j: int| 0 <= j < self@.len() implies sequence_ok(
                        (#[trigger] self@[j]).1,
                    ) by {
                        if i >= 0 {
                            if j < i {
                                assert(self@[j] == s[j]);
                            } else {
                                assert(self@[j] == s[j + 1]);
                            }
                        }
                    }
                }
                removed
            },
        }
    }

    fn set_flags(&mut self, id: SequenceId, muted: Option<bool>, paused: Option<bool>)
        requires
            old(self).wf(),
        ensures
            final(self)@ == spec_set_flags(old(self)@, id.0, muted, paused),
            final(self).wf(),
    {
        proof {
            lemma_index_of(self@, id.0);
        }
        match self.table.index_of(id.0) {
            Some(i) => {
                let k = self.table.key_at(i);
                let inst = self.table.value_at_mut(i);
                match muted {
                    Some(m) => inst.muted = m,
                    None => {},
                }
                match paused {
                    Some(p) => inst.paused = p,
                    None => {},
                }
                proof {
                    let s = old(self)@;
                    assert(self@ =~= spec_set_flags(s, id.0, muted, paused));
                    assert forall|j: int| 0 <= j < self@.len() implies sequence_ok(
                        (#[trigger] self@[j]).1,
                    ) by {
                        if j != i as int {
                            assert(self@[j] == s[j]);
                        }
                    }
                    assert forall|a: int, b: int| 0 <= a < b < self@.len() implies self@[a].0
                        != self@[b].0 by {
                        assert(self@[a].0 == s[a].0);
                        assert(self@[b].0 == s[b].0);
                    }
                }
            },
            None => {},
        }
    }

    /// One update pass: advance every sequence in registration order,
    /// collect the emitted commands, and move finished sequences to the
    /// reclamation channel.
    pub fn update(
        &mut self,
        dt: i64,
        sequences_to_unload_producer: &mut ringbuf::Producer<SequenceInstance>,
    ) -> (out: Vec<SequenceOutputCommand>)
        requires
            old(self).wf(),
            0 <= dt <= SCALAR_MAX,
        ensures
            (final(self)@, out@) == spec_sequences_update(old(self)@, dt as int),
            final(self).wf(),
    {
        let mut entries = self.table.take_entries();
        let mut out: Vec<SequenceOutputCommand> = Vec::new();
        proof {
            assert(self@ =~= Seq::<(u64, SequenceInstance)>::empty());
        }
        while entries.len() > 0
            invariant
                0 <= dt <= SCALAR_MAX,
                unique_keys(self@),
                forall|j: int| 0 <= j < self@.len() ==> sequence_ok((#[trigger] self@[j]).1),
                forall|j: int|
                    0 <= j < entries@.len() ==> sequence_ok((#[trigger] entries@[j]).1),
                spec_sequences_update(old(self)@, dt as int) == ({
                    let (rem, o) = spec_sequences_update(entries@, dt as int);
                    (self@ + rem, out@ + o)
                }),
                forall|a: int, b: int|
                    0 <= a < self@.len() && 0 <= b < entries@.len() ==> (#[trigger] self@[a]).0
                        != (#[trigger] entries@[b]).0,
                unique_keys(entries@),
            decreases entries@.len(),
        {
            let ghost entries0 = entries@;
            let ghost self0 = self@;
            let ghost out0 = out@;
            let e = entries.remove(0);
            proof {
                assert(entries0.drop_first() =~= entries@);
                assert(e == entries0[0]);
            }
            let (k, mut inst) = e;
            let ghost inst0 = inst;
            proof {
                assert(k == entries0[0].0);
                assert(inst0 == entries0[0].1);
            }
            let (emitted, finished) = inst.advance(dt);
            let mut emitted = emitted;
            out.append(&mut emitted);
            if finished {
                let _ = channel_push(sequences_to_unload_producer, inst);
            } else {
                proof {
                    assert forall|j: int| 0 <= j < self@.len() implies (#[trigger] self@[j]).0
                        != k by {
                        assert(self@[j].0 != entries0[0].0);
                    }
                }
                self.table.push_back(k, inst);
            }
            proof {
                let step = spec_seq_advance(entries0[0].1, dt as int);
                let (rem0, o0) = spec_sequences_update(entries0, dt as int);
                let (rem, o) = spec_sequences_update(entries@, dt as int);
                assert(o0 == step.1 + o);
                assert(out@ =~= out0 + step.1);
                assert(out@ + o =~= out0 + o0);
                if step.2 {
                    assert(self@ + rem =~= self0 + rem0);
                } else {
                    assert(rem0 == seq![(entries0[0].0, step.0)] + rem);
                    assert(self@ =~= self0.push((k, step.0)));
                    assert(self@ + rem =~= self0 + rem0);
                }
                assert forall|a: int, b: int|
                    0 <= a < self@.len() && 0 <= b < entries@.len() implies (
                #[trigger] self@[a]).0 != (#[trigger] entries@[b]).0 by {
                    assert(entries@[b] == entries0[b + 1]);
                    if a < self0.len() {
                        assert(self@[a] == self0[a]);
                    }
                }
            }
        }
        proof {
            let (rem, o) = spec_sequences_update(entries@, dt as int);
            assert(self@ + rem =~= self@);
            assert(out@ + o =~= out@);
        }
        out
    }
}

} // verus!
