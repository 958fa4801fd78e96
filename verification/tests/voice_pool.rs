use bbx_dsp::block::BlockId;
use pond::dsp::droplet::{DropletVoice, NUM_VOICES as DROPLET_VOICES};
use pond::pool::{claim_voice, find_voice, tick_active};
use pond::voice::{Voice, NUM_VOICES, VOICE_LIFETIME_BUFFERS};

fn voice(base: usize, active: bool, age: u64) -> Voice {
    let (mut v, _) = Voice::create(
        BlockId(base),
        BlockId(base + 1),
        BlockId(base + 2),
        BlockId(base + 3),
        BlockId(base + 4),
        BlockId(base + 5),
    );
    v.active = active;
    v.age = age;
    v
}

fn droplet(base: usize, active: bool, age: u64) -> DropletVoice {
    let (mut v, _) = DropletVoice::create(
        BlockId(base),
        BlockId(base + 1),
        BlockId(base + 2),
        BlockId(base + 3),
        BlockId(base + 4),
        BlockId(base + 5),
    );
    v.active = active;
    v.age = age;
    v
}

#[test]
fn create_starts_silent_and_returns_panner() {
    let (v, out) = Voice::create(BlockId(1), BlockId(2), BlockId(3), BlockId(4), BlockId(5), BlockId(6));
    assert!(!v.active);
    assert_eq!(v.age, 0);
    assert_eq!(out, BlockId(6));
    assert_eq!(v.oscillator_id, BlockId(1));
    assert_eq!(v.vca_id, BlockId(3));
    let (d, dout) =
        DropletVoice::create(BlockId(1), BlockId(2), BlockId(3), BlockId(4), BlockId(5), BlockId(6));
    assert!(!d.active);
    assert_eq!(d.vca_id, BlockId(3));
    assert_eq!(dout, BlockId(6));
}

#[test]
fn trigger_resets_age_and_activates() {
    let mut v = voice(0, false, 17);
    v.trigger();
    assert!(v.active);
    assert_eq!(v.age, 0);
    let mut d = droplet(0, false, 99);
    d.trigger();
    assert!(d.active);
    assert_eq!(d.age, 0);
}

#[test]
fn lifetime_is_thirty_buffers() {
    assert_eq!(VOICE_LIFETIME_BUFFERS, 30);
    let mut v = voice(0, false, 0);
    v.trigger();
    for n in 0..40u64 {
        assert_eq!(v.age, n);
        assert_eq!(v.is_finished(), n >= 30);
        v.tick();
    }
}

#[test]
fn find_voice_prefers_first_inactive() {
    let mut pool = vec![voice(0, true, 3), voice(10, false, 50), voice(20, false, 1)];
    assert_eq!(find_voice(&mut pool), 1);
    assert!(pool[0].active);
}

#[test]
fn find_voice_releases_finished_voices() {
    let mut pool = vec![voice(0, true, 5), voice(10, true, 30), voice(20, true, 31)];
    assert_eq!(find_voice(&mut pool), 1);
    assert!(pool[0].active);
    assert!(!pool[1].active);
    assert!(!pool[2].active);
    assert_eq!(pool[1].age, 30);
    assert_eq!(pool[2].age, 31);
}

#[test]
fn find_voice_steals_oldest_last_of_ties() {
    let mut pool = vec![voice(0, true, 7), voice(10, true, 12), voice(20, true, 3), voice(30, true, 12)];
    assert_eq!(find_voice(&mut pool), 3);
    assert!(pool.iter().all(|v| v.active));
}

#[test]
fn find_voice_empty_pool_gives_zero() {
    let mut pool: Vec<Voice> = Vec::new();
    assert_eq!(find_voice(&mut pool), 0);
}

#[test]
fn find_voice_twice_is_stable() {
    let mut pool = vec![voice(0, true, 29), voice(10, true, 30), voice(20, true, 2)];
    let first = find_voice(&mut pool);
    let second = find_voice(&mut pool);
    assert_eq!(first, 1);
    assert_eq!(first, second);
}

#[test]
fn claim_voice_triggers_choice() {
    let mut pool = vec![voice(0, true, 4), voice(10, true, 9)];
    let r = claim_voice(&mut pool);
    assert_eq!(r, 1);
    assert!(pool[1].active);
    assert_eq!(pool[1].age, 0);
    assert_eq!(pool[0].age, 4);
}

#[test]
fn tick_active_only_ages_sounding_voices() {
    let mut pool = vec![voice(0, true, 4), voice(10, false, 9), voice(20, true, 0)];
    tick_active(&mut pool);
    assert_eq!(pool[0].age, 5);
    assert_eq!(pool[1].age, 9);
    assert_eq!(pool[2].age, 1);
    assert!(!pool[1].active);
}

#[test]
fn full_pool_of_droplets_reuses_finished_voice() {
    assert_eq!(DROPLET_VOICES, 8);
    let mut pool: Vec<DropletVoice> = (0..DROPLET_VOICES).map(|i| droplet(i * 10, false, 0)).collect();
    for expected in 0..DROPLET_VOICES {
        assert_eq!(claim_voice(&mut pool), expected);
        tick_active(&mut pool);
    }
    // All eight sound; the first one is the oldest and gets stolen.
    assert_eq!(find_voice(&mut pool), 0);
    for _ in 0..30 {
        tick_active(&mut pool);
    }
    // The first voice is now finished and released, so it is free again.
    assert_eq!(find_voice(&mut pool), 0);
    assert!(!pool[0].active);
}

#[test]
fn steady_stream_of_droplets_cycles_through_pool() {
    let mut pool: Vec<Voice> = (0..NUM_VOICES).map(|i| voice(i * 10, false, 0)).collect();
    let mut picks = Vec::new();
    for _ in 0..10 {
        picks.push(claim_voice(&mut pool));
        tick_active(&mut pool);
    }
    assert_eq!(picks, vec![0, 1, 2, 3, 4, 5, 6, 7, 0, 1]);
}

#[test]
fn signal_chains() {
    let v = voice(0, false, 0);
    let chain = v.signal_chain();
    let ends: Vec<(usize, usize, usize, usize)> =
        chain.iter().map(|c| (c.from.0, c.from_output, c.to.0, c.to_input)).collect();
    assert_eq!(ends, vec![(0, 0, 2, 0), (1, 0, 2, 1), (2, 0, 3, 0), (3, 0, 4, 0), (4, 0, 5, 0)]);
    let d = droplet(0, false, 0);
    let ends: Vec<(usize, usize, usize, usize)> =
        d.signal_chain().iter().map(|c| (c.from.0, c.from_output, c.to.0, c.to_input)).collect();
    // The envelope (block 1) gates the signal in the VCA (block 2).
    assert_eq!(ends, vec![(0, 0, 2, 0), (1, 0, 2, 1), (2, 0, 3, 0), (3, 0, 4, 0), (4, 0, 5, 0)]);
}

#[test]
fn consecutive_taps_get_distinct_voices() {
    // Two taps in a row on a pool with free voices land on different voices,
    // even on a busy pool where old voices remain.
    let mut pool = vec![voice(0, true, 12), voice(10, false, 0), voice(20, true, 3), voice(30, false, 40)];
    let a = claim_voice(&mut pool);
    let b = claim_voice(&mut pool);
    assert_eq!((a, b), (1, 3));
    let c = claim_voice(&mut pool);
    // No free voice left: the oldest sounding voice is stolen.
    assert_eq!(c, 0);
}
