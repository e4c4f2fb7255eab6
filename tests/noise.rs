use replication::noise::{NoiseGenerator, GRADIENTS, PERMUTATION};

#[test]
fn seed_zero_keeps_the_reference_permutation() {
    let n = NoiseGenerator::new(0);
    for i in 0..256usize {
        assert_eq!(n.perm(i), PERMUTATION[i] as usize);
        assert_eq!(n.perm(i + 256), PERMUTATION[i] as usize);
        assert_eq!(n.gradient(i), GRADIENTS[(PERMUTATION[i] % 12) as usize]);
        assert_eq!(n.gradient(i + 256), n.gradient(i));
    }
    assert_eq!(n.perm(0), 151);
    assert_eq!(n.gradient(0), (-1, 0, -1));
}

#[test]
fn small_seed_repeats_its_byte() {
    let n = NoiseGenerator::new(1);
    assert_eq!(n.perm(0), 150);
    assert_eq!(n.perm(1), 161);
    assert_eq!(n.perm(256), 150);
}

#[test]
fn large_seed_uses_two_bytes() {
    let n = NoiseGenerator::new(1000);
    assert_eq!(n.perm(0), 151 ^ 3);
    assert_eq!(n.perm(1), 160 ^ 232);
}

#[test]
fn negative_seed() {
    let n = NoiseGenerator::new(-1);
    assert_eq!(n.perm(0), 151 ^ 255);
    assert_eq!(n.perm(1), 160 ^ 255);
}

#[test]
fn reseeding_replaces_tables() {
    let mut n = NoiseGenerator::new(1);
    n.seed(0);
    assert_eq!(n.perm(0), 151);
    assert_eq!(n.perm(511), 180);
}
