use audion::eq::{active_bands, EqBand, EqPlan, EqSettings};

fn gains(settings: &EqSettings) -> Vec<i32> {
    settings.bands.iter().map(|b| b.gain).collect()
}

#[test]
fn default_settings() {
    let s = EqSettings::default();
    assert!(!s.enabled);
    let freqs: Vec<u32> = s.bands.iter().map(|b| b.frequency).collect();
    assert_eq!(freqs, vec![31, 62, 125, 250, 500, 1000, 2000, 4000, 8000, 16000]);
    assert!(gains(&s).iter().all(|&g| g == 0));
}

#[test]
fn pass_through_when_disabled() {
    let mut s = EqSettings::default();
    s.bands[3].gain = 6_000;
    s.enabled = false;
    // a disabled equalizer builds no filter at all
    assert!(active_bands(&s).is_empty());
}

#[test]
fn pass_through_when_all_gains_zero() {
    let mut s = EqSettings::default();
    s.enabled = true;
    // enabled, but every band at gain zero: still no filter
    assert!(active_bands(&s).is_empty());
}

#[test]
fn only_nonzero_bands_filter() {
    let mut s = EqSettings::default();
    s.enabled = true;
    s.bands[1].gain = 3_000;
    s.bands[8].gain = -2_500;
    let active = active_bands(&s);
    assert_eq!(active.len(), 2);
    assert_eq!(active[0], EqBand { frequency: 62, gain: 3_000 });
    assert_eq!(active[1], EqBand { frequency: 8000, gain: -2_500 });
}

#[test]
fn plan_routes_channels_round_robin() {
    let mut s = EqSettings::default();
    s.enabled = true;
    s.bands[0].gain = 1_000;
    let mut plan = EqPlan::new(2, &s);
    assert_eq!(plan.channels, 2);
    assert_eq!(plan.chain.len(), 1);
    assert_eq!(plan.advance(), 0);
    assert_eq!(plan.advance(), 1);
    assert_eq!(plan.advance(), 0);
    assert_eq!(plan.advance(), 1);
}

#[test]
fn settings_clone_keeps_bands() {
    let mut s = EqSettings::default();
    s.enabled = true;
    s.bands[2].gain = -1_200;
    let c = s.clone();
    assert_eq!(c.enabled, s.enabled);
    assert_eq!(gains(&c), gains(&s));
}
