use pond::voice::{random_scale_frequency_centihz, scale_frequency_centihz, SCALE_LEN};
use rand::SeedableRng;
use rand_chacha::ChaCha8Rng;

const MUSICAL_FREQUENCIES: [f32; 10] =
    [587.33, 659.26, 739.99, 880.00, 987.77, 1174.66, 1318.51, 1479.98, 1760.00, 1975.53];

#[test]
fn scale_matches_hertz_table() {
    assert_eq!(SCALE_LEN, MUSICAL_FREQUENCIES.len());
    for i in 0..SCALE_LEN {
        assert_eq!(scale_frequency_centihz(i) as f32 / 100.0, MUSICAL_FREQUENCIES[i]);
    }
}

#[test]
fn scale_is_ascending() {
    for i in 1..SCALE_LEN {
        assert!(scale_frequency_centihz(i - 1) < scale_frequency_centihz(i));
    }
}

#[test]
fn random_pick_is_a_scale_note_and_varies() {
    let mut rng = ChaCha8Rng::seed_from_u64(7);
    let notes: Vec<u32> = (0..SCALE_LEN).map(scale_frequency_centihz).collect();
    let mut seen = std::collections::HashSet::new();
    for _ in 0..500 {
        let f = random_scale_frequency_centihz(&mut rng);
        assert!(notes.contains(&f));
        seen.insert(f);
    }
    assert!(seen.len() > 1);
}
