//! Values, tweens and cached resolution.
//!
//! A `Value` is either a fixed literal or a reference to a parameter id with
//! a linear mapping. A `CachedValue` pairs a `Value` with the last
//! successfully resolved scalar, so that removing the referenced parameter
//! degrades to "keep the last value" instead of an error.

use vstd::prelude::*;
use crate::fixed::{
    SCALE, scalar_ok, spec_clamp, div_trunc, spec_mul_scale, mul_scale, add_clamped, mul_div_nn,
    clamp_scalar,
};
use crate::parameter::{ParameterId, Parameters, param_ok};
use crate::table::{spec_index_of, spec_contains};

verus! {

/// Easing curve of a tween, over a progress fraction in `[0, SCALE]`.
#[derive(Clone, Copy, Debug, PartialEq, Eq, Structural)]
pub enum Easing {
    Linear,
    InQuad,
    OutQuad,
}

pub open spec fn spec_ease(e: Easing, t: int) -> int
    recommends
        0 <= t <= SCALE as int,
{
    match e {
        Easing::Linear => t,
        Easing::InQuad => div_trunc(t * t, SCALE as int),
        Easing::OutQuad => SCALE as int - div_trunc(
            (SCALE as int - t) * (SCALE as int - t),
            SCALE as int,
        ),
    }
}

pub fn ease(e: Easing, t: i64) -> (r: i64)
    requires
        0 <= t <= SCALE,
    ensures
        r == spec_ease(e, t as int),
        0 <= r <= SCALE,
{
    match e {
        Easing::Linear => t,
        Easing::InQuad => {
            let r = mul_div_nn(t, t, SCALE);
            proof {
                assert((t as int * t as int) / (SCALE as int) <= SCALE as int)
                    by (nonlinear_arith)
                    requires
                        0 <= t as int <= SCALE as int,
                        SCALE as int > 0,
                ;
            }
            r
        },
        Easing::OutQuad => {
            let u = SCALE - t;
            let d = mul_div_nn(u, u, SCALE);
            proof {
                assert((u as int * u as int) / (SCALE as int) <= SCALE as int)
                    by (nonlinear_arith)
                    requires
                        0 <= u as int <= SCALE as int,
                        SCALE as int > 0,
                ;
            }
            SCALE - d
        },
    }
}

/// A time-based interpolation toward a target: duration (fixed-point
/// seconds) plus easing.
#[derive(Clone, Copy, Debug, PartialEq, Eq, Structural)]
pub struct Tween {
    pub duration: i64,
    pub easing: Easing,
}

/// A linear map applied to a referenced parameter:
/// `out = clamp(p * scale / SCALE + offset)`.
#[derive(Clone, Copy, Debug, PartialEq, Eq, Structural)]
pub struct Mapping {
    pub scale: i64,
    pub offset: i64,
}

pub open spec fn mapping_ok(m: Mapping) -> bool {
    scalar_ok(m.scale as int) && scalar_ok(m.offset as int)
}

pub open spec fn spec_map_value(m: Mapping, p: int) -> int {
    spec_clamp(spec_mul_scale(p, m.scale as int) + m.offset as int)
}

/// The identity mapping.
pub fn identity_mapping() -> (m: Mapping)
    ensures
        m == (Mapping { scale: SCALE, offset: 0i64 }),
        mapping_ok(m),
{
    Mapping { scale: SCALE, offset: 0 }
}

/// Either a fixed scalar or a live reference to a parameter.
#[derive(Clone, Copy, Debug, PartialEq, Eq, Structural)]
pub enum Value {
    Fixed(i64),
    Parameter(ParameterId, Mapping),
}

pub open spec fn value_ok(v: Value) -> bool {
    match v {
        Value::Fixed(x) => scalar_ok(x as int),
        Value::Parameter(_, m) => mapping_ok(m),
    }
}

/// A command payload clamped into the scalar range, so that applying any
/// command keeps the engine's values in range.
pub open spec fn spec_sanitize_value(v: Value) -> Value {
    match v {
        Value::Fixed(x) => Value::Fixed(spec_clamp(x as int) as i64),
        Value::Parameter(id, m) => Value::Parameter(
            id,
            Mapping {
                scale: spec_clamp(m.scale as int) as i64,
                offset: spec_clamp(m.offset as int) as i64,
            },
        ),
    }
}

pub fn sanitize_value(v: Value) -> (r: Value)
    ensures
        r == spec_sanitize_value(v),
        value_ok(r),
{
    match v {
        Value::Fixed(x) => Value::Fixed(clamp_scalar(x)),
        Value::Parameter(id, m) => Value::Parameter(
            id,
            Mapping { scale: clamp_scalar(m.scale), offset: clamp_scalar(m.offset) },
        ),
    }
}

/// A `Value` together with the scalar it last resolved to.
#[derive(Clone, Copy, Debug, PartialEq, Eq, Structural)]
pub struct CachedValue {
    pub value: Value,
    pub cached: i64,
}

pub open spec fn cached_ok(cv: CachedValue) -> bool {
    value_ok(cv.value) && scalar_ok(cv.cached as int)
}

/// A cached value from a command payload, clamped into the scalar range.
pub open spec fn spec_sanitize_cached(cv: CachedValue) -> CachedValue {
    CachedValue { value: spec_sanitize_value(cv.value), cached: spec_clamp(cv.cached as int) as i64 }
}

pub fn sanitize_cached(cv: CachedValue) -> (r: CachedValue)
    ensures
        r == spec_sanitize_cached(cv),
        cached_ok(r),
{
    CachedValue { value: sanitize_value(cv.value), cached: clamp_scalar(cv.cached) }
}

/// One resolution step: a fixed value re-copies its literal; a parameter
/// reference recomputes through its mapping when the parameter exists and
/// keeps the cache untouched when it does not.
pub open spec fn spec_cached_update(cv: CachedValue, ps: Seq<(u64, crate::parameter::Parameter)>)
    -> CachedValue {
    match cv.value {
        Value::Fixed(x) => CachedValue { value: cv.value, cached: spec_clamp(x as int) as i64 },
        Value::Parameter(id, m) => {
            if spec_contains(ps, id.0) {
                CachedValue {
                    value: cv.value,
                    cached: spec_map_value(m, ps[spec_index_of(ps, id.0)].1.value as int) as i64,
                }
            } else {
                cv
            }
        },
    }
}

/// Law: resolving against a registry that no longer holds the referenced
/// parameter leaves the cached value exactly as it was — removal of a
/// parameter never resets a dependent to a default.
pub proof fn lemma_missing_parameter_keeps_cache(
    cv: CachedValue,
    ps: Seq<(u64, crate::parameter::Parameter)>,
)
    requires
        match cv.value {
            Value::Parameter(id, _) => !spec_contains(ps, id.0),
            Value::Fixed(_) => false,
        },
    ensures
        spec_cached_update(cv, ps) == cv,
{
}

impl CachedValue {
    pub fn new(value: Value, default: i64) -> (cv: CachedValue)
        ensures
            cv == (CachedValue { value, cached: spec_clamp(default as int) as i64 }),
            value_ok(value) ==> cached_ok(cv),
    {
        CachedValue { value, cached: clamp_scalar(default) }
    }

    /// The scalar this value last resolved to.
    pub fn value(&self) -> (r: i64)
        ensures
            r == self.cached,
    {
        self.cached
    }

    /// Replace the underlying `Value`; the cache keeps its scalar until the
    /// next resolution.
    pub fn set(&mut self, value: Value)
        ensures
            *final(self) == (CachedValue { value, cached: old(self).cached }),
    {
        self.value = value;
    }

    /// Per-frame resolution against the live parameter registry.
    pub fn update(&mut self, parameters: &Parameters)
        requires
            cached_ok(*old(self)),
            parameters.wf(),
        ensures
            *final(self) == spec_cached_update(*old(self), parameters@),
            cached_ok(*final(self)),
    {
        match self.value {
            Value::Fixed(x) => {
                self.cached = clamp_scalar(x);
            },
            Value::Parameter(id, m) => {
                match parameters.get(id) {
                    Some(p) => {
                        proof {
                            crate::table::lemma_index_of(parameters@, id.0);
                            assert(param_ok(parameters@[spec_index_of(parameters@, id.0)].1));
                        }
                        let mapped = mul_scale(p.value, m.scale);
                        self.cached = add_clamped(mapped, m.offset);
                    },
                    None => {},
                }
            },
        }
    }
}

} // verus!
