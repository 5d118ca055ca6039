//! Equalizer band settings and the per-channel filter-chain plan.
//!
//! A band is a peaking filter request: a center frequency and a gain.
//! Gains are carried in millidecibels (1 dB = 1000), so that the plan
//! logic stays exact; the numeric filter itself runs outside this crate.
//! A band whose gain is exactly zero contributes no filter at all, and a
//! disabled equalizer contributes none either, so in both cases the chain
//! is empty and the sample stream passes through unchanged.

use vstd::prelude::*;

verus! {

/// One equalizer band: a center frequency in Hz and a gain in
/// millidecibels.
#[derive(Clone, Copy, Debug, PartialEq, Eq, Structural)]
pub struct EqBand {
    pub frequency: u32,
    pub gain: i32,
}

/// The equalizer configuration: a master switch and an ordered band list.
/// The order fixes the filter-chain construction order, so that rebuilding
/// the chain from equal settings gives an equal chain.
#[derive(Debug)]
pub struct EqSettings {
    pub enabled: bool,
    pub bands: Vec<EqBand>,
}

/// The ten default band centers, third-octave-ish from 31 Hz to 16 kHz,
/// all at gain zero.
pub open spec fn default_bands() -> Seq<EqBand> {
    seq![
        EqBand { frequency: 31, gain: 0 },
        EqBand { frequency: 62, gain: 0 },
        EqBand { frequency: 125, gain: 0 },
        EqBand { frequency: 250, gain: 0 },
        EqBand { frequency: 500, gain: 0 },
        EqBand { frequency: 1000, gain: 0 },
        EqBand { frequency: 2000, gain: 0 },
        EqBand { frequency: 4000, gain: 0 },
        EqBand { frequency: 8000, gain: 0 },
        EqBand { frequency: 16000, gain: 0 },
    ]
}

impl Clone for EqSettings {
    fn clone(&self) -> (r: Self)
        ensures
            r.enabled == self.enabled,
            r.bands@ == self.bands@,
    {
        let mut bands: Vec<EqBand> = Vec::new();
        let mut i: usize = 0;
        while i < self.bands.len()
            invariant
                i <= self.bands@.len(),
                bands@ == self.bands@.subrange(0, i as int),
            decreases self.bands@.len() - i,
        {
            bands.push(self.bands[i]);
            i = i + 1;
            proof {
                assert(bands@ =~= self.bands@.subrange(0, i as int));
            }
        }
        proof {
            assert(bands@ =~= self.bands@);
        }
        EqSettings { enabled: self.enabled, bands }
    }
}

impl Default for EqSettings {
    /// The default equalizer: disabled, with the ten standard bands all at
    /// gain zero.
    fn default() -> (r: Self)
        ensures
            r.enabled == false,
            r.bands@ == default_bands(),
    {
        let mut bands: Vec<EqBand> = Vec::new();
        bands.push(EqBand { frequency: 31, gain: 0 });
        bands.push(EqBand { frequency: 62, gain: 0 });
        bands.push(EqBand { frequency: 125, gain: 0 });
        bands.push(EqBand { frequency: 250, gain: 0 });
        bands.push(EqBand { frequency: 500, gain: 0 });
        bands.push(EqBand { frequency: 1000, gain: 0 });
        bands.push(EqBand { frequency: 2000, gain: 0 });
        bands.push(EqBand { frequency: 4000, gain: 0 });
        bands.push(EqBand { frequency: 8000, gain: 0 });
        bands.push(EqBand { frequency: 16000, gain: 0 });
        proof {
            assert(bands@ =~= default_bands());
        }
        EqSettings { enabled: false, bands }
    }
}

/// The bands of `bands` that carry a filter: those with a nonzero gain,
/// in the order the settings list them.
pub open spec fn active_of(bands: Seq<EqBand>) -> Seq<EqBand>
    decreases bands.len(),
{
    if bands.len() == 0 {
        Seq::empty()
    } else if bands.last().gain != 0 {
        active_of(bands.drop_last()).push(bands.last())
    } else {
        active_of(bands.drop_last())
    }
}

/// The filter chain that `settings` asks for: empty when disabled,
/// otherwise one filter per band with nonzero gain.
pub open spec fn spec_active_bands(settings: EqSettings) -> Seq<EqBand> {
    if settings.enabled {
        active_of(settings.bands@)
    } else {
        Seq::empty()
    }
}

/// Collect the bands that contribute a filter under `settings`.
pub fn active_bands(settings: &EqSettings) -> (r: Vec<EqBand>)
    ensures
        r@ == spec_active_bands(*settings),
{
    let mut r: Vec<EqBand> = Vec::new();
    if settings.enabled {
        let mut i: usize = 0;
        while i < settings.bands.len()
            invariant
                i <= settings.bands@.len(),
                r@ == active_of(settings.bands@.subrange(0, i as int)),
            decreases settings.bands@.len() - i,
        {
            let band = settings.bands[i];
            proof {
                let pre = settings.bands@.subrange(0, i as int);
                let post = settings.bands@.subrange(0, i as int + 1);
                assert(post.drop_last() =~= pre);
                assert(post.last() == settings.bands@[i as int]);
            }
            if band.gain != 0 {
                r.push(band);
            }
            i = i + 1;
        }
        proof {
            assert(settings.bands@.subrange(0, settings.bands@.len() as int) =~= settings.bands@);
        }
    }
    r
}

proof fn lemma_active_of_empty_iff_zero(bands: Seq<EqBand>)
    ensures
        active_of(bands).len() == 0 <==> (forall|i: int| 0 <= i < bands.len() ==> bands[i].gain == 0),
    decreases bands.len(),
{
    if bands.len() > 0 {
        lemma_active_of_empty_iff_zero(bands.drop_last());
        assert(forall|i: int| 0 <= i < bands.len() - 1 ==> bands.drop_last()[i] == bands[i]);
    }
}

/// The pass-through law: the filter chain is empty exactly when the
/// equalizer is disabled or every band's gain is zero. An empty chain
/// applies no filter, so each sample leaves the pipeline as it entered.
pub proof fn lemma_pass_through(settings: EqSettings)
    ensures
        spec_active_bands(settings).len() == 0 <==> (!settings.enabled || forall|i: int|
            0 <= i < settings.bands@.len() ==> settings.bands@[i].gain == 0),
{
    lemma_active_of_empty_iff_zero(settings.bands@);
}

/// The per-channel plan of an equalizer pipeline wrapped around a sample
/// stream: every channel gets an independent filter chain built from the
/// same band list, and a rotating cursor routes each interleaved sample
/// to the next channel in turn.
pub struct EqPlan {
    pub channels: u16,
    pub chain: Vec<EqBand>,
    pub current_channel: usize,
}

impl EqPlan {
    pub open spec fn wf(self) -> bool {
        &&& self.channels >= 1
        &&& (self.current_channel as int) < (self.channels as int)
    }

    /// Build the plan for a stream with `channels` interleaved channels
    /// under `settings`. Interleaved audio must not mix filter history
    /// between channels, so each channel is planned its own chain.
    pub fn new(channels: u16, settings: &EqSettings) -> (p: EqPlan)
        requires
            channels >= 1,
        ensures
            p.wf(),
            p.channels == channels,
            p.chain@ == spec_active_bands(*settings),
            p.current_channel == 0,
    {
        EqPlan { channels, chain: active_bands(settings), current_channel: 0 }
    }

    /// Route one interleaved sample: report the channel whose chain takes
    /// it, then rotate the cursor to the next channel.
    pub fn advance(&mut self) -> (ch: usize)
        requires
            old(self).wf(),
        ensures
            final(self).wf(),
            ch == old(self).current_channel,
            final(self).current_channel as int == (old(self).current_channel + 1) % (old(self).channels as int),
            final(self).channels == old(self).channels,
            final(self).chain@ == old(self).chain@,
    {
        let ch = self.current_channel;
        self.current_channel = (self.current_channel + 1) % (self.channels as usize);
        ch
    }
}

} // verus!
