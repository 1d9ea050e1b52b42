use game_core::noise::PerlinNoise;

#[test]
fn permutation_table_is_a_doubled_permutation() {
    let noise = PerlinNoise::new(42);
    let mut seen = [false; 256];
    for i in 0..256 {
        let v = noise.permutation_at(i);
        assert_eq!(noise.permutation_at(256 + i), v);
        assert!(!seen[v as usize]);
        seen[v as usize] = true;
    }
    assert!(seen.iter().all(|s| *s));
}

#[test]
fn same_seed_same_table() {
    let a = PerlinNoise::new(7);
    let b = PerlinNoise::new(7);
    let c = PerlinNoise::new(8);
    assert!((0..512).all(|i| a.permutation_at(i) == b.permutation_at(i)));
    assert!((0..512).any(|i| a.permutation_at(i) != c.permutation_at(i)));
}

#[test]
fn first_swap_follows_the_generator() {
    // The first step draws state = 0 * 1103515245 + 12345 = 12345 and swaps
    // position 255 with 12345 % 256 = 57; later steps touch lower positions only.
    let noise = PerlinNoise::new(0);
    assert_eq!(noise.permutation_at(255), 57);
}
