//! The parameter registry: independently tweenable scalars referenced
//! throughout the engine by id.

use vstd::prelude::*;
use crate::fixed::{SCALE, SCALAR_MAX, scalar_ok, spec_clamp, spec_lerp, clamp_scalar, lerp,
    mul_div_nn};
use crate::value::{Easing, Tween, spec_ease, ease};
use crate::table::{Table, unique_keys, spec_index_of, spec_contains, spec_table_insert,
    spec_table_remove, lemma_index_of};
use crate::command::ParameterCommand;

verus! {

#[derive(Clone, Copy, Debug, PartialEq, Eq, Structural)]
pub struct ParameterId(pub u64);

/// A running interpolation from `start` toward `target`.
#[derive(Clone, Copy, Debug, PartialEq, Eq, Structural)]
pub struct ActiveTween {
    pub start: i64,
    pub target: i64,
    pub easing: Easing,
    pub duration: i64,
    pub elapsed: i64,
}

/// One tweenable scalar.
#[derive(Clone, Copy, Debug, PartialEq, Eq, Structural)]
pub struct Parameter {
    pub value: i64,
    pub active: Option<ActiveTween>,
}

pub open spec fn param_ok(p: Parameter) -> bool {
    &&& scalar_ok(p.value as int)
    &&& match p.active {
        Some(a) => {
            &&& scalar_ok(a.start as int)
            &&& scalar_ok(a.target as int)
            &&& 0 < a.duration <= SCALAR_MAX
            &&& 0 <= a.elapsed < a.duration
        },
        None => true,
    }
}

/// Setting a parameter: without a tween (or with a non-positive duration)
/// the value snaps; otherwise an interpolation from the current value
/// starts. Out-of-range inputs are clamped into the scalar range.
pub open spec fn spec_param_set(p: Parameter, target: int, tween: Option<Tween>) -> Parameter {
    let t = spec_clamp(target);
    match tween {
        None => Parameter { value: t as i64, active: None },
        Some(tw) => {
            if tw.duration <= 0 {
                Parameter { value: t as i64, active: None }
            } else {
                Parameter {
                    value: p.value,
                    active: Some(
                        ActiveTween {
                            start: p.value,
                            target: t as i64,
                            easing: tw.easing,
                            duration: if tw.duration > SCALAR_MAX {
                                SCALAR_MAX
                            } else {
                                tw.duration
                            },
                            elapsed: 0,
                        },
                    ),
                }
            }
        },
    }
}

/// Advancing a parameter by `dt`: a finished interpolation snaps to its
/// target and clears; a running one moves to the eased interpolant.
pub open spec fn spec_param_update(p: Parameter, dt: int) -> Parameter
    recommends
        0 <= dt,
{
    match p.active {
        None => p,
        Some(a) => {
            let e2 = a.elapsed + dt;
            if e2 >= a.duration {
                Parameter { value: a.target, active: None }
            } else {
                Parameter {
                    value: spec_lerp(
                        a.start as int,
                        a.target as int,
                        spec_ease(a.easing, (e2 * SCALE) / (a.duration as int)),
                    ) as i64,
                    active: Some(ActiveTween { elapsed: e2 as i64, ..a }),
                }
            }
        },
    }
}

impl Parameter {
    pub fn new(value: i64) -> (p: Parameter)
        ensures
            p == (Parameter { value: spec_clamp(value as int) as i64, active: None }),
            param_ok(p),
    {
        Parameter { value: clamp_scalar(value), active: None }
    }

    pub fn set(&mut self, target: i64, tween: Option<Tween>)
        requires
            param_ok(*old(self)),
        ensures
            *final(self) == spec_param_set(*old(self), target as int, tween),
            param_ok(*final(self)),
    {
        let t = clamp_scalar(target);
        match tween {
            None => {
                self.value = t;
                self.active = None;
            },
            Some(tw) => {
                if tw.duration <= 0 {
                    self.value = t;
                    self.active = None;
                } else {
                    let d = if tw.duration > SCALAR_MAX {
                        SCALAR_MAX
                    } else {
                        tw.duration
                    };
                    self.active = Some(
                        ActiveTween {
                            start: self.value,
                            target: t,
                            easing: tw.easing,
                            duration: d,
                            elapsed: 0,
                        },
                    );
                }
            },
        }
    }

    pub fn update(&mut self, dt: i64)
        requires
            param_ok(*old(self)),
            0 <= dt <= SCALAR_MAX,
        ensures
            *final(self) == spec_param_update(*old(self), dt as int),
            param_ok(*final(self)),
    {
        match self.active {
            None => {},
            Some(a) => {
                let e2 = a.elapsed + dt;
                if e2 >= a.duration {
                    self.value = a.target;
                    self.active = None;
                } else {
                    let frac = mul_div_nn(e2, SCALE, a.duration);
                    proof {
                        assert(e2 as int * SCALE as int <= a.duration as int * SCALE as int)
                            by (nonlinear_arith)
                            requires
                                0 <= e2 as int <= a.duration as int,
                                SCALE as int > 0,
                        ;
                        assert((e2 as int * SCALE as int) / (a.duration as int) <= (a.duration
                            as int * SCALE as int) / (a.duration as int)) by {
                            vstd::arithmetic::div_mod::lemma_div_is_ordered(
                                e2 as int * SCALE as int,
                                a.duration as int * SCALE as int,
                                a.duration as int,
                            );
                        }
                        assert((a.duration as int * SCALE as int) / (a.duration as int) == SCALE
                            as int) by (nonlinear_arith)
                            requires
                                a.duration as int > 0,
                        ;
                    }
                    let eased = ease(a.easing, frac);
                    self.value = lerp(a.start, a.target, eased);
                    self.active = Some(ActiveTween { elapsed: e2, ..a });
                }
            },
        }
    }
}

/// Tween advancement composes: advancing by `a` and then by `b` lands in
/// exactly the state of advancing by `a + b` once, because a running
/// interpolation is always recomputed from its stored start, target and
/// elapsed time. Halfway values and the final snap are therefore
/// independent of how a run is chopped into frames.
pub proof fn lemma_tween_update_composes(p: Parameter, a: int, b: int)
    requires
        0 <= a,
        0 <= b,
    ensures
        spec_param_update(spec_param_update(p, a), b) == spec_param_update(p, a + b),
{
}

/// A finished interpolation never drifts: once a parameter's tween has
/// completed (or it never had one), further advances leave its value
/// exactly as it is, for every step size.
pub proof fn lemma_no_drift_after_tween(p: Parameter, dt: int)
    requires
        p.active is None,
    ensures
        spec_param_update(p, dt) == p,
{
}

/// The registry: id to parameter, in insertion order.
pub struct Parameters {
    table: Table<Parameter>,
}

/// What each command does to the registry's contents. A command naming an
/// unknown id (remove or set of a missing parameter) is a no-op.
pub open spec fn spec_parameters_apply(
    s: Seq<(u64, Parameter)>,
    cmd: ParameterCommand,
) -> Seq<(u64, Parameter)> {
    match cmd {
        ParameterCommand::AddParameter(id, value) => spec_table_insert(
            s,
            id.0,
            Parameter { value: spec_clamp(value as int) as i64, active: None },
        ),
        ParameterCommand::RemoveParameter(id) => spec_table_remove(s, id.0),
        ParameterCommand::SetParameter(id, target, tween) => {
            let i = spec_index_of(s, id.0);
            if i >= 0 {
                s.update(i, (id.0, spec_param_set(s[i].1, target as int, tween)))
            } else {
                s
            }
        },
    }
}

/// Every parameter advanced by `dt`.
pub open spec fn spec_parameters_update(s: Seq<(u64, Parameter)>, dt: int) -> Seq<(u64, Parameter)> {
    s.map(|i: int, e: (u64, Parameter)| (e.0, spec_param_update(e.1, dt)))
}

impl Parameters {
    pub closed spec fn view(&self) -> Seq<(u64, Parameter)> {
        self.table@
    }

    pub open spec fn wf(&self) -> bool {
        &&& unique_keys(self@)
        &&& forall|i: int| 0 <= i < self@.len() ==> param_ok(#[trigger] self@[i].1)
    }

    pub fn new() -> (r: Parameters)
        ensures
            r@ == Seq::<(u64, Parameter)>::empty(),
            r.wf(),
    {
        Parameters { table: Table::new() }
    }

    pub fn get(&self, id: ParameterId) -> (r: Option<&Parameter>)
        ensures
            match r {
                Some(p) => spec_contains(self@, id.0) && *p == self@[spec_index_of(self@, id.0)].1,
                None => !spec_contains(self@, id.0),
            },
    {
        self.table.get(id.0)
    }

    /// Apply one parameter command; stale ids degrade to no-ops.
    pub fn run_command(&mut self, cmd: ParameterCommand)
        requires
            old(self).wf(),
        ensures
            final(self)@ == spec_parameters_apply(old(self)@, cmd),
            final(self).wf(),
    {
        match cmd {
            ParameterCommand::AddParameter(id, value) => {
                self.table.insert(id.0, Parameter::new(value));
                proof {
                    let s = old(self)@;
                    let i = spec_index_of(s, id.0);
                    lemma_index_of(s, id.0);
                    assert forall|j: int| 0 <= j < self@.len() implies param_ok(
                        #[trigger] self@[j].1,
                    ) by {
                        if i >= 0 {
                            if j != i {
                                assert(self@[j] == s[j]);
                            }
                        } else {
                            if j < s.len() {
                                assert(self@[j] == s[j]);
                            }
                        }
                    }
                }
            },
            ParameterCommand::RemoveParameter(id) => {
                let _ = self.table.remove(id.0);
                proof {
                    let s = old(self)@;
                    let i = spec_index_of(s, id.0);
                    lemma_index_of(s, id.0);
                    assert forall|j: int| 0 <= j < self@.len() implies param_ok(
                        #[trigger] self@[j].1,
                    ) by {
                        if i >= 0 {
                            if j < i {
                                assert(self@[j] == s[j]);
                            } else {
                                assert(self@[j] == s[j + 1]);
                            }
                        }
                    }
                }
            },
            ParameterCommand::SetParameter(id, target, tween) => {
                match self.table.index_of(id.0) {
                    Some(i) => {
                        proof {
                            lemma_index_of(self@, id.0);
                        }
                        let k = self.table.key_at(i);
                        let p = self.table.value_at_mut(i);
                        p.set(target, tween);
                        proof {
                            let s = old(self)@;
                            assert(self@ == s.update(
                                spec_index_of(s, id.0),
                                (id.0, spec_param_set(s[spec_index_of(s, id.0)].1, target as int,
                                tween)),
                            ));
                            assert forall|j: int| 0 <= j < self@.len() implies param_ok(
                                #[trigger] self@[j].1,
                            ) by {
                                if j != i as int {
                                    assert(self@[j] == s[j]);
                                }
                            }
                            assert forall|a: int, b: int|
                                0 <= a < b < self@.len() implies self@[a].0 != self@[b].0 by {
                                assert(self@[a].0 == s[a].0);
                                assert(self@[b].0 == s[b].0);
                            }
                        }
                    },
                    None => {},
                }
            },
        }
    }

    /// Advance every active interpolation by `dt`.
    pub fn update(&mut self, dt: i64)
        requires
            old(self).wf(),
            0 <= dt <= SCALAR_MAX,
        ensures
            final(self)@ == spec_parameters_update(old(self)@, dt as int),
            final(self).wf(),
    {
        let n = self.table.len();
        let mut i: usize = 0;
        while i < n
            invariant
                0 <= dt <= SCALAR_MAX,
                n == old(self)@.len(),
                i <= n,
                self@.len() == n,
                forall|j: int| 0 <= j < n ==> (#[trigger] self@[j]).0 == old(self)@[j].0,
                forall|j: int| i <= j < n ==> #[trigger] self@[j] == old(self)@[j],
                forall|j: int|
                    0 <= j < i ==> #[trigger] self@[j] == (old(self)@[j].0, spec_param_update(
                        old(self)@[j].1,
                        dt as int,
                    )),
                unique_keys(old(self)@),
                forall|j: int| 0 <= j < n ==> param_ok((#[trigger] old(self)@[j]).1),
                forall|j: int| 0 <= j < i ==> param_ok((#[trigger] self@[j]).1),
            decreases n - i,
        {
            let p = self.table.value_at_mut(i);
            p.update(dt);
            i += 1;
        }
        proof {
            assert(self@ =~= spec_parameters_update(old(self)@, dt as int));
            assert forall|a: int, b: int| 0 <= a < b < self@.len() implies self@[a].0
                != self@[b].0 by {
                assert(self@[a].0 == old(self)@[a].0);
                assert(self@[b].0 == old(self)@[b].0);
            }
        }
    }
}

} // verus!
