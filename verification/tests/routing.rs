use bbx_dsp::block::BlockId;
use pond::graph::{mixer_routing, voice_base_frequency, MAX_BLOCK_INPUTS};
use pond::dsp::droplet::NUM_VOICES as DROPLET_VOICES;
use pond::voice::NUM_VOICES;
use std::collections::HashSet;

fn outputs(n: usize) -> Vec<BlockId> {
    (0..n).map(|i| BlockId(100 + i)).collect()
}

fn tuples(c: &[pond::graph::Connection]) -> Vec<(usize, usize, usize, usize)> {
    c.iter().map(|c| (c.from.0, c.from_output, c.to.0, c.to_input)).collect()
}

#[test]
fn routing_has_expected_shape() {
    let r = mixer_routing(&outputs(8), BlockId(1), BlockId(2), BlockId(3), BlockId(4));
    let t = tuples(&r);
    assert_eq!(t.len(), 44);
    assert_eq!(t[0], (100, 0, 1, 0));
    assert_eq!(t[5], (101, 1, 1, 5));
    assert_eq!(t[15], (103, 3, 1, 15));
    assert_eq!(t[16], (104, 0, 2, 0));
    assert_eq!(t[31], (107, 3, 2, 15));
    assert_eq!(t[32], (1, 0, 3, 0));
    assert_eq!(t[35], (1, 3, 3, 3));
    assert_eq!(t[36], (2, 0, 3, 4));
    assert_eq!(t[39], (2, 3, 3, 7));
    assert_eq!(t[40], (3, 0, 4, 0));
    assert_eq!(t[43], (3, 3, 4, 3));
}

#[test]
fn routing_inputs_are_unique_and_bounded() {
    let r = mixer_routing(&outputs(NUM_VOICES), BlockId(1), BlockId(2), BlockId(3), BlockId(4));
    let mut seen = HashSet::new();
    for c in &r {
        assert!(c.to_input < MAX_BLOCK_INPUTS);
        assert!(seen.insert((c.to.0, c.to_input)));
    }
}

#[test]
fn every_voice_of_both_pools_is_routed() {
    assert_eq!(NUM_VOICES, 8);
    assert_eq!(DROPLET_VOICES, 8);
    let plans = [
        tuples(&mixer_routing(&outputs(NUM_VOICES), BlockId(1), BlockId(2), BlockId(3), BlockId(4))),
        tuples(&pond::dsp::graph::mixer_routing(
            &outputs(DROPLET_VOICES),
            BlockId(1),
            BlockId(2),
            BlockId(3),
            BlockId(4),
        )),
    ];
    for plan in plans.iter() {
        for v in 0..8 {
            for ch in 0..4 {
                let sub = if v < 4 { 1 } else { 2 };
                assert!(plan.contains(&(100 + v, ch, sub, (v % 4) * 4 + ch)));
            }
        }
    }
}

#[test]
fn stereo_routing_interleaves_master() {
    let r = pond::dsp::graph::mixer_routing(&outputs(8), BlockId(1), BlockId(2), BlockId(3), BlockId(4));
    let t = tuples(&r);
    assert_eq!(t.len(), 44);
    assert_eq!(t[32], (1, 0, 3, 0));
    assert_eq!(t[33], (2, 0, 3, 4));
    assert_eq!(t[38], (1, 3, 3, 3));
    assert_eq!(t[39], (2, 3, 3, 7));
    let a: HashSet<_> = t.into_iter().collect();
    let b: HashSet<_> =
        tuples(&mixer_routing(&outputs(8), BlockId(1), BlockId(2), BlockId(3), BlockId(4))).into_iter().collect();
    assert_eq!(a, b);
}

#[test]
fn base_frequencies_are_staggered() {
    assert_eq!(voice_base_frequency(0), 1000);
    assert_eq!(voice_base_frequency(1), 1050);
    assert_eq!(voice_base_frequency(15), 1750);
}
