//! The limiter instance: its settings, its running gains, and the two
//! operations that create it and replace its settings.

use crate::arithmetic::{total, Operation};
use crate::binary32::ONE;
use crate::coefficients::{db_to_lin, is_db_to_lin, is_release_coeff, release_coeff_for_ms};
use crate::params::{
    clamp_ceiling_db, clamp_makeup_db, flag_is_set, spec_clamp, CEILING_DB_MAX, CEILING_DB_MIN,
    DEFAULT_CEILING_DB, DEFAULT_RELEASE_MS, MAKEUP_DB_MAX, MAKEUP_DB_MIN,
};
use vstd::prelude::*;

verus! {

/// What the signal path works with, all linear.
#[derive(Clone, Copy)]
pub struct Settings {
    /// The amplitude that the output is held to.
    pub ceiling_lin: u32,
    /// The gain applied to every sample before limiting.
    pub makeup_lin: u32,
    /// The one-pole smoothing coefficient of the release.
    pub release_coeff: u32,
}

/// Everything a limiter holds, as plain values.
pub struct State {
    pub settings: Settings,
    /// Whether processing copies the input and leaves the gains alone.
    pub bypass: bool,
    /// Whether a stereo block is limited by one gain for both channels.
    pub stereo_link: bool,
    /// The running gain of linked stereo.
    pub gain_linked: u32,
    /// The running gain of the first channel, and of mono.
    pub gain_ch0: u32,
    /// The running gain of the second channel.
    pub gain_ch1: u32,
    /// The sample rate, fixed when the limiter is made.
    pub sample_rate_hz: u32,
}

/// A peak limiter. It cannot be copied: whoever holds it owns its gains.
pub struct Limiter {
    settings: Settings,
    bypass: bool,
    stereo_link: bool,
    gain_linked: u32,
    gain_ch0: u32,
    gain_ch1: u32,
    sample_rate_hz: u32,
}

impl View for Limiter {
    type V = State;

    closed spec fn view(&self) -> State {
        State {
            settings: self.settings,
            bypass: self.bypass,
            stereo_link: self.stereo_link,
            gain_linked: self.gain_linked,
            gain_ch0: self.gain_ch0,
            gain_ch1: self.gain_ch1,
            sample_rate_hz: self.sample_rate_hz,
        }
    }
}

impl Limiter {
    /// The settings of the signal path.
    pub fn settings(&self) -> (s: Settings)
        ensures
            s == self@.settings,
    {
        self.settings
    }

    /// Whether the limiter is bypassed.
    pub fn bypass(&self) -> (on: bool)
        ensures
            on == self@.bypass,
    {
        self.bypass
    }

    /// Whether stereo is limited by one gain.
    pub fn stereo_link(&self) -> (on: bool)
        ensures
            on == self@.stereo_link,
    {
        self.stereo_link
    }

    /// The running gain of linked stereo.
    pub fn gain_linked(&self) -> (g: u32)
        ensures
            g == self@.gain_linked,
    {
        self.gain_linked
    }

    /// The running gain of the first channel.
    pub fn gain_ch0(&self) -> (g: u32)
        ensures
            g == self@.gain_ch0,
    {
        self.gain_ch0
    }

    /// The running gain of the second channel.
    pub fn gain_ch1(&self) -> (g: u32)
        ensures
            g == self@.gain_ch1,
    {
        self.gain_ch1
    }

    /// The sample rate that the limiter was made for.
    pub fn sample_rate_hz(&self) -> (rate: u32)
        ensures
            rate == self@.sample_rate_hz,
    {
        self.sample_rate_hz
    }

    /// Stores the gain that a linked stereo block ended with.
    pub(crate) fn store_linked(&mut self, gain: u32)
        ensures
            final(self)@ == (State { gain_linked: gain, ..old(self)@ }),
    {
        self.gain_linked = gain;
    }

    /// Stores the gain that a mono block ended with.
    pub(crate) fn store_mono(&mut self, gain: u32)
        ensures
            final(self)@ == (State { gain_ch0: gain, ..old(self)@ }),
    {
        self.gain_ch0 = gain;
    }

    /// Stores the gains that an independent stereo block ended with.
    pub(crate) fn store_independent(&mut self, gain0: u32, gain1: u32)
        ensures
            final(self)@ == (State { gain_ch0: gain0, gain_ch1: gain1, ..old(self)@ }),
    {
        self.gain_ch0 = gain0;
        self.gain_ch1 = gain1;
    }
}

/// `s` is a new limiter for `sample_rate_hz`: a ceiling of -0.3 dB, no makeup
/// gain, a release of 120 ms, not bypassed, stereo linked, all gains at one.
pub open spec fn is_new<K: Fn(Operation) -> u32>(k: &K, sample_rate_hz: u32, s: State) -> bool {
    &&& is_db_to_lin(k, DEFAULT_CEILING_DB, s.settings.ceiling_lin)
    &&& s.settings.makeup_lin == ONE
    &&& is_release_coeff(k, DEFAULT_RELEASE_MS, sample_rate_hz, s.settings.release_coeff)
    &&& !s.bypass
    &&& s.stereo_link
    &&& s.gain_linked == ONE
    &&& s.gain_ch0 == ONE
    &&& s.gain_ch1 == ONE
    &&& s.sample_rate_hz == sample_rate_hz
}

/// Makes a limiter for a sample rate, with every other setting at its default.
pub fn limiter_new<K: Fn(Operation) -> u32>(sample_rate_hz: u32, k: &K) -> (l: Limiter)
    requires
        total(k),
    ensures
        is_new(k, sample_rate_hz, l@),
{
    Limiter {
        settings: Settings {
            ceiling_lin: db_to_lin(DEFAULT_CEILING_DB, k),
            makeup_lin: ONE,
            release_coeff: release_coeff_for_ms(DEFAULT_RELEASE_MS, sample_rate_hz, k),
        },
        bypass: false,
        stereo_link: true,
        gain_linked: ONE,
        gain_ch0: ONE,
        gain_ch1: ONE,
        sample_rate_hz,
    }
}

/// `after` is `before` with its settings and both switches replaced: the
/// ceiling corrected into [-60, 0] dB and the makeup gain into [-24, 24] dB,
/// both made linear; the release coefficient made anew for the limiter's own
/// sample rate; each switch on where its flag is not zero. The gains and the
/// sample rate stay.
pub open spec fn is_params_update<K: Fn(Operation) -> u32>(
    k: &K,
    before: State,
    after: State,
    ceiling_db: u32,
    release_ms: u32,
    makeup_db: u32,
    bypass: u32,
    stereo_link: u32,
) -> bool {
    &&& is_db_to_lin(
        k,
        spec_clamp(ceiling_db, CEILING_DB_MIN, CEILING_DB_MAX),
        after.settings.ceiling_lin,
    )
    &&& is_db_to_lin(
        k,
        spec_clamp(makeup_db, MAKEUP_DB_MIN, MAKEUP_DB_MAX),
        after.settings.makeup_lin,
    )
    &&& is_release_coeff(k, release_ms, before.sample_rate_hz, after.settings.release_coeff)
    &&& after.bypass == (bypass != 0)
    &&& after.stereo_link == (stereo_link != 0)
    &&& after.gain_linked == before.gain_linked
    &&& after.gain_ch0 == before.gain_ch0
    &&& after.gain_ch1 == before.gain_ch1
    &&& after.sample_rate_hz == before.sample_rate_hz
}

/// Replaces ceiling, release, makeup gain, bypass and stereo link together.
/// No input is rejected: each is corrected into its range.
pub fn limiter_set_params<K: Fn(Operation) -> u32>(
    l: &mut Limiter,
    ceiling_db: u32,
    release_ms: u32,
    makeup_db: u32,
    bypass: u32,
    stereo_link: u32,
    k: &K,
)
    requires
        total(k),
    ensures
        is_params_update(
            k,
            old(l)@,
            final(l)@,
            ceiling_db,
            release_ms,
            makeup_db,
            bypass,
            stereo_link,
        ),
{
    let ceiling_lin: u32 = db_to_lin(clamp_ceiling_db(ceiling_db), k);
    let makeup_lin: u32 = db_to_lin(clamp_makeup_db(makeup_db), k);
    let release_coeff: u32 = release_coeff_for_ms(release_ms, l.sample_rate_hz, k);
    l.settings = Settings { ceiling_lin, makeup_lin, release_coeff };
    l.bypass = flag_is_set(bypass);
    l.stereo_link = flag_is_set(stereo_link);
}

} // verus!
