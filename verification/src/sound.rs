//! Loaded sounds.
//!
//! Asset representation and decoding live outside the engine; a sound here
//! carries what the engine reads: its duration, its default mixer track, a
//! constant amplitude standing for its audio data, and a retrigger cooldown.

use vstd::prelude::*;
use crate::fixed::{scalar_ok, spec_clamp, clamp_scalar};
use crate::frame::{Frame, frame_ok};
use crate::track::TrackIndex;

verus! {

#[derive(Clone, Copy, Debug, PartialEq, Eq, Structural)]
pub struct SoundId(pub u64);

#[derive(Clone, Copy, Debug, PartialEq, Eq, Structural)]
pub struct Sound {
    /// Length in fixed-point seconds.
    pub duration: i64,
    /// Where instances of this sound route by default.
    pub default_track: TrackIndex,
    /// The sample amplitude this sound produces while playing.
    pub level: i64,
    /// Minimum fixed-point seconds between retriggers.
    pub cooldown: i64,
    /// Remaining cooldown; zero when the sound may be retriggered.
    pub cooldown_timer: i64,
}

pub open spec fn sound_ok(s: Sound) -> bool {
    &&& 0 <= s.duration && scalar_ok(s.duration as int)
    &&& scalar_ok(s.level as int)
    &&& 0 <= s.cooldown && scalar_ok(s.cooldown as int)
    &&& 0 <= s.cooldown_timer && scalar_ok(s.cooldown_timer as int)
}

/// A sound as a load command carries it, clamped into range with its
/// cooldown timer cleared.
pub open spec fn spec_sanitize_sound(s: Sound) -> Sound {
    Sound {
        duration: (if s.duration < 0 {
            0int
        } else {
            spec_clamp(s.duration as int)
        }) as i64,
        default_track: s.default_track,
        level: spec_clamp(s.level as int) as i64,
        cooldown: (if s.cooldown < 0 {
            0int
        } else {
            spec_clamp(s.cooldown as int)
        }) as i64,
        cooldown_timer: 0,
    }
}

/// The sample a playing instance pulls at `pos`: the sound's level inside
/// its duration, silence outside it.
pub open spec fn spec_frame_at(s: Sound, pos: int) -> Frame {
    if 0 <= pos < s.duration {
        Frame { left: s.level, right: s.level }
    } else {
        Frame { left: 0, right: 0 }
    }
}

impl Sound {
    pub fn new(duration: i64, default_track: TrackIndex, level: i64, cooldown: i64) -> (s: Sound)
        ensures
            s == spec_sanitize_sound(
                Sound { duration, default_track, level, cooldown, cooldown_timer: 0 },
            ),
            sound_ok(s),
    {
        let d = if duration < 0 {
            0
        } else {
            clamp_scalar(duration)
        };
        let c = if cooldown < 0 {
            0
        } else {
            clamp_scalar(cooldown)
        };
        Sound { duration: d, default_track, level: clamp_scalar(level), cooldown: c, cooldown_timer: 0 }
    }

    pub fn sanitize(self) -> (s: Sound)
        ensures
            s == spec_sanitize_sound(self),
            sound_ok(s),
    {
        let d = if self.duration < 0 {
            0
        } else {
            clamp_scalar(self.duration)
        };
        let c = if self.cooldown < 0 {
            0
        } else {
            clamp_scalar(self.cooldown)
        };
        Sound {
            duration: d,
            default_track: self.default_track,
            level: clamp_scalar(self.level),
            cooldown: c,
            cooldown_timer: 0,
        }
    }

    pub fn duration(&self) -> (r: i64)
        ensures
            r == self.duration,
    {
        self.duration
    }

    pub fn default_track(&self) -> (r: TrackIndex)
        ensures
            r == self.default_track,
    {
        self.default_track
    }

    /// Sample lookup at an arbitrary playback position.
    pub fn frame_at(&self, pos: i64) -> (r: Frame)
        requires
            sound_ok(*self),
        ensures
            r == spec_frame_at(*self, pos as int),
            frame_ok(r),
    {
        if 0 <= pos && pos < self.duration {
            Frame { left: self.level, right: self.level }
        } else {
            Frame { left: 0, right: 0 }
        }
    }

    /// Whether enough time has passed since the last trigger.
    pub fn ready(&self) -> (r: bool)
        ensures
            r == (self.cooldown_timer <= 0),
    {
        self.cooldown_timer <= 0
    }

    /// Begin the retrigger cooldown.
    pub fn start_cooldown(&mut self)
        ensures
            *final(self) == (Sound { cooldown_timer: old(self).cooldown, ..*old(self) }),
    {
        self.cooldown_timer = self.cooldown;
    }

    /// Advance the cooldown timer by `dt`, stopping at zero.
    pub fn update_cooldown(&mut self, dt: i64)
        requires
            sound_ok(*old(self)),
            0 <= dt,
        ensures
            *final(self) == (Sound {
                cooldown_timer: (if old(self).cooldown_timer - dt < 0 {
                    0int
                } else {
                    old(self).cooldown_timer - dt
                }) as i64,
                ..*old(self)
            }),
            sound_ok(*final(self)),
    {
        if self.cooldown_timer <= dt {
            self.cooldown_timer = 0;
        } else {
            self.cooldown_timer = self.cooldown_timer - dt;
        }
    }
}

} // verus!
