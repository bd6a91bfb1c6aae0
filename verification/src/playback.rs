//! Playback timing of the current song, and the loop modes of the player.
//!
//! Instants are nanoseconds on a monotonic clock measured from an epoch the caller
//! chooses; durations are nanoseconds. The clock is read by the caller and handed in
//! as `now`, so every operation here is a function of its arguments.

use vstd::prelude::*;

verus! {

/// What the player does when the end of the queue (or of a song) is reached.
#[derive(Debug, Clone, Copy, PartialEq, Eq, Structural)]
pub enum LoopMode {
    /// Stop at the end of the queue.
    Off,
    /// Repeat the current song.
    One,
    /// Start the queue over.
    All,
}

impl Default for LoopMode {
    fn default() -> (m: Self)
        ensures
            m == LoopMode::Off,
    {
        LoopMode::Off
    }
}

/// The mathematical state of a playback: when the song (re)started, when it was
/// paused if it is, how long it is, and which song it is.
pub struct Timeline {
    pub start: int,
    pub paused: Option<int>,
    pub duration: int,
    pub song: u128,
}

impl Timeline {
    /// The instant the position is measured at: the pause instant while paused, `now` otherwise.
    pub open spec fn reference(self, now: int) -> int {
        match self.paused {
            Some(p) => p,
            None => now,
        }
    }

    /// Time elapsed since the start (zero if the start lies after the reference instant),
    /// capped at the song's duration.
    pub open spec fn position(self, now: int) -> int {
        let elapsed = self.reference(now) - self.start;
        let elapsed = if elapsed < 0 { 0 } else { elapsed };
        if elapsed < self.duration { elapsed } else { self.duration }
    }

    pub open spec fn is_paused(self) -> bool {
        self.paused is Some
    }

    /// A fresh playback of `song` starting at `now`, paused at once unless `playing`.
    pub open spec fn begin(duration: int, song: u128, playing: bool, now: int) -> Timeline {
        Timeline {
            start: now,
            paused: if playing { None } else { Some(now) },
            duration,
            song,
        }
    }

    /// Pausing keeps an existing pause instant and otherwise records `now`.
    pub open spec fn pause(self, now: int) -> Timeline {
        match self.paused {
            Some(_) => self,
            None => Timeline { paused: Some(now), ..self },
        }
    }

    /// Resuming moves the start so that the position at `now` is the paused position.
    pub open spec fn resume(self, now: int) -> Timeline {
        match self.paused {
            Some(_) => Timeline { start: now - self.position(now), paused: None, ..self },
            None => self,
        }
    }

    /// The target of a seek: the requested position capped at the duration.
    pub open spec fn seek_target(self, position: int) -> int {
        if position < self.duration { position } else { self.duration }
    }

    /// Seeking moves the start so that the position at the reference instant is the target.
    pub open spec fn seek(self, position: int, now: int) -> Timeline {
        Timeline { start: self.reference(now) - self.seek_target(position), ..self }
    }

    /// The song has played to its end: not paused, non-zero duration, position at the end.
    pub open spec fn finished(self, now: int) -> bool {
        !self.is_paused() && self.duration > 0 && self.position(now) >= self.duration
    }
}

/// The playback state of the current song.
#[derive(Debug, Clone, Copy)]
pub struct PlaybackState {
    start: i128,
    paused: Option<u64>,
    duration: u64,
    song: u128,
}

impl View for PlaybackState {
    type V = Timeline;

    closed spec fn view(&self) -> Timeline {
        Timeline {
            start: self.start as int,
            paused: match self.paused {
                Some(p) => Some(p as int),
                None => None,
            },
            duration: self.duration as int,
            song: self.song,
        }
    }
}

impl PlaybackState {
    /// The start lies within a `u64` of the clock's epoch, on either side: it is always
    /// an instant minus a position.
    #[verifier::type_invariant]
    spec fn start_in_range(self) -> bool {
        -(u64::MAX as int) <= self.start <= u64::MAX
    }

    /// The length of the song.
    pub fn duration(&self) -> (d: u64)
        ensures
            d == self@.duration,
    {
        self.duration
    }

    /// Where playback stands at `now`.
    pub fn position(&self, now: u64) -> (p: u64)
        ensures
            p == self@.position(now as int),
            p <= self@.duration,
    {
        proof { use_type_invariant(self); }
        let reference = match self.paused {
            Some(p) => p,
            None => now,
        };
        let elapsed: i128 = reference as i128 - self.start;
        if elapsed <= 0 {
            0
        } else if elapsed < self.duration as i128 {
            elapsed as u64
        } else {
            self.duration
        }
    }

    /// Whether playback is paused.
    pub fn paused(&self) -> (b: bool)
        ensures
            b == self@.is_paused(),
    {
        self.paused.is_some()
    }

    /// The song being played.
    pub fn song(&self) -> (s: u128)
        ensures
            s == self@.song,
    {
        self.song
    }

    /// A fresh playback of `song` starting at `now`, paused at once unless `is_playing`.
    pub fn new(duration: u64, song: u128, is_playing: bool, now: u64) -> (s: Self)
        ensures
            s@ == Timeline::begin(duration as int, song, is_playing, now as int),
    {
        PlaybackState {
            start: now as i128,
            paused: if is_playing { None } else { Some(now) },
            duration,
            song,
        }
    }

    /// Pauses playback at `now`; an existing pause is kept.
    pub fn pause(&mut self, now: u64)
        ensures
            final(self)@ == old(self)@.pause(now as int),
    {
        proof { use_type_invariant(&*self); }
        if self.paused.is_none() {
            self.paused = Some(now);
        }
    }

    /// Resumes a paused playback at `now`, keeping its position.
    pub fn play(&mut self, now: u64)
        ensures
            final(self)@ == old(self)@.resume(now as int),
    {
        proof { use_type_invariant(&*self); }
        if self.paused.is_some() {
            let pos = self.position(now);
            self.start = now as i128 - pos as i128;
            self.paused = None;
        }
    }

    /// Moves playback to `position` (capped at the duration), measured at the pause instant
    /// while paused and at `now` otherwise.
    pub fn seek(&mut self, position: u64, now: u64)
        ensures
            final(self)@ == old(self)@.seek(position as int, now as int),
    {
        proof { use_type_invariant(&*self); }
        let position = if position < self.duration { position } else { self.duration };
        let reference = match self.paused {
            Some(p) => p,
            None => now,
        };
        self.start = reference as i128 - position as i128;
    }

    /// Whether the song has played to its end at `now`.
    pub fn finished(&self, now: u64) -> (b: bool)
        ensures
            b == self@.finished(now as int),
    {
        !self.paused() && self.duration > 0 && self.position(now) >= self.duration
    }
}

// ---------------------------------------------------------------------------
// Laws
// ---------------------------------------------------------------------------

/// The position never exceeds the duration and is never negative.
pub proof fn law_position_within_song(t: Timeline, now: int)
    requires
        t.duration >= 0,
    ensures
        0 <= t.position(now) <= t.duration,
{
}

/// After a seek, the position at the same instant is the requested position capped at
/// the duration.
pub proof fn law_seek_then_position(t: Timeline, position: int, now: int)
    requires
        t.duration >= 0,
        position >= 0,
    ensures
        t.seek(position, now).position(now) == t.seek_target(position),
        t.seek(position, now).position(now) <= position,
{
}

/// While paused, the position does not move with the clock.
pub proof fn law_paused_position_is_frozen(t: Timeline, a: int, b: int)
    requires
        t.is_paused(),
    ensures
        t.position(a) == t.position(b),
{
}

/// Pausing and later resuming leaves the position where it was when the pause began.
pub proof fn law_pause_resume_keeps_position(t: Timeline, paused_at: int, resumed_at: int)
    requires
        !t.is_paused(),
        t.duration >= 0,
    ensures
        t.pause(paused_at).resume(resumed_at).position(resumed_at) == t.position(paused_at),
        !t.pause(paused_at).resume(resumed_at).is_paused(),
{
}

/// Pausing twice is the same as pausing once; resuming a playing song changes nothing.
pub proof fn law_pause_and_resume_idempotent(t: Timeline, a: int, b: int)
    ensures
        t.pause(a).pause(b) == t.pause(a),
        !t.is_paused() ==> t.resume(a) == t,
{
}

/// A fresh playback is at position zero; one that begins paused stays there.
pub proof fn law_begin_at_zero(duration: int, song: u128, playing: bool, now: int, later: int)
    requires
        duration >= 0,
    ensures
        Timeline::begin(duration, song, playing, now).position(now) == 0,
        !playing ==> Timeline::begin(duration, song, playing, now).position(later) == 0,
        Timeline::begin(duration, song, playing, now).is_paused() == !playing,
{
}

/// A playing song advances one-for-one with the clock until it reaches its end.
pub proof fn law_playing_position_follows_clock(t: Timeline, a: int, b: int)
    requires
        !t.is_paused(),
        t.duration >= 0,
        t.start <= a <= b,
    ensures
        t.position(b) == if t.position(a) + (b - a) < t.duration { t.position(a) + (b - a) } else { t.duration },
{
}

/// A playback of zero length (a stream whose length is not known yet) never counts as
/// played to its end; one of positive length that is playing counts as ended once its
/// length has elapsed since its start.
pub proof fn law_finished_needs_a_length(t: Timeline, now: int)
    ensures
        t.duration == 0 ==> !t.finished(now),
        t.duration > 0 && t.paused is None && now - t.start >= t.duration ==> t.finished(now),
        t.finished(now) ==> t.duration > 0 && t.paused is None,
{
}

} // verus!
