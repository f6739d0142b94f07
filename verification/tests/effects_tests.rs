use audionoise::effects::{Chain, Clip, Effect, EffectStep, Gain};

#[test]
fn gain_scales_and_truncates_toward_zero() {
    let mut g = Gain::new(1, 2);
    assert_eq!(g.process(5), 2);
    assert_eq!(g.process(-5), -2);
    assert_eq!(g.process(0), 0);
}

#[test]
fn gain_accessors_round_trip() {
    let mut g = Gain::new(3, 4);
    assert_eq!(g.gain(), (3, 4));
    g.set_gain(7, 8);
    assert_eq!(g.gain(), (7, 8));
}

#[test]
fn gain_saturates_at_the_sample_range() {
    let mut g = Gain::new(u32::MAX, 1);
    assert_eq!(g.process(i64::MAX), i64::MAX);
    assert_eq!(g.process(i64::MIN), i64::MIN);
}

#[test]
fn clip_clamps_into_its_range() {
    let mut c = Clip::new(-3, 3);
    assert_eq!(c.process(10), 3);
    assert_eq!(c.process(-10), -3);
    assert_eq!(c.process(2), 2);
}

#[test]
fn chain_applies_left_to_right() {
    let mut chain = Chain::new();
    chain.push(EffectStep::Gain(Gain::new(3, 1)));
    chain.push(EffectStep::Clip(Clip::new(-4, 4)));
    // Gain first (2 -> 6), then clip (6 -> 4).
    assert_eq!(chain.process(2), 4);

    let mut reversed = Chain::new();
    reversed.push(EffectStep::Clip(Clip::new(-4, 4)));
    reversed.push(EffectStep::Gain(Gain::new(3, 1)));
    // Clip first (2 -> 2), then gain (2 -> 6).
    assert_eq!(reversed.process(2), 6);
}

#[test]
fn chain_bookkeeping() {
    let mut chain = Chain::default();
    assert!(chain.is_empty());
    assert_eq!(chain.process(41), 41);
    chain.push(EffectStep::Gain(Gain::new(2, 1)));
    chain.push(EffectStep::Gain(Gain::new(2, 1)));
    assert_eq!(chain.len(), 2);
    assert!(!chain.is_empty());
    assert_eq!(chain.process(10), 40);
    chain.clear();
    assert!(chain.is_empty());
    assert_eq!(chain.process(10), 10);
}

#[test]
fn chain_processes_a_buffer_in_place() {
    let mut chain = Chain::new();
    chain.push(EffectStep::Gain(Gain::new(2, 1)));
    chain.push(EffectStep::Clip(Clip::new(-6, 6)));
    let mut buffer = vec![1, -2, 5];
    chain.process_buffer(&mut buffer);
    assert_eq!(buffer, vec![2, -4, 6]);
}
