use pdfmaker::rng::{seed_from_clock, HostState, GOLDEN_GAMMA};

#[test]
fn splitmix_from_zero_matches_reference_stream() {
    let mut st = HostState { rng: 0 };
    assert_eq!(st.next_u64(), 0xe220a8397b1dcdaf);
    assert_eq!(st.next_u64(), 0x6e789e6aa1b965f4);
    assert_eq!(st.next_u64(), 0x06c45d188009454f);
    assert_eq!(st.rng, GOLDEN_GAMMA.wrapping_mul(3));
}

#[test]
fn next_u64_advances_state_by_gamma() {
    let mut st = HostState { rng: u64::MAX };
    st.next_u64();
    assert_eq!(st.rng, GOLDEN_GAMMA - 1);
}

#[test]
fn fill_random_uses_little_endian_words_and_cuts_the_last() {
    let mut st = HostState { rng: 0 };
    let bytes = st.fill_random(10);
    assert_eq!(bytes, vec![0xaf, 0xcd, 0x1d, 0x7b, 0x39, 0xa8, 0x20, 0xe2, 0xf4, 0x65]);
    assert_eq!(st.rng, GOLDEN_GAMMA.wrapping_mul(2));
}

#[test]
fn fill_random_zero_bytes_leaves_state() {
    let mut st = HostState { rng: 42 };
    assert!(st.fill_random(0).is_empty());
    assert_eq!(st.rng, 42);
}

#[test]
fn fill_random_in_word_chunks_equals_one_fill() {
    let mut a = HostState { rng: 7 };
    let mut b = HostState { rng: 7 };
    let mut first = a.fill_random(16);
    first.extend(a.fill_random(5));
    assert_eq!(first, b.fill_random(21));
    assert_eq!(a.rng, b.rng);
}

#[test]
fn fill_random_matches_next_u64() {
    let mut a = HostState { rng: 123 };
    let mut b = HostState { rng: 123 };
    let bytes = a.fill_random(8);
    assert_eq!(bytes, b.next_u64().to_le_bytes().to_vec());
}

#[test]
fn seed_from_clock_sets_low_bit() {
    assert_eq!(seed_from_clock(Some(10)), 11);
    assert_eq!(seed_from_clock(Some(7)), 7);
    assert_eq!(seed_from_clock(Some((1u128 << 64) + 4)), 5);
    assert_eq!(seed_from_clock(None), 0x1234_5679);
}

#[test]
fn different_states_give_different_outputs() {
    let mut seen = std::collections::HashSet::new();
    for s in 0..1000u64 {
        let mut st = HostState { rng: s.wrapping_mul(0x0123_4567_89ab_cdef) };
        assert!(seen.insert(st.next_u64()));
    }
}

#[test]
fn state_cycles_only_after_full_period() {
    let seed = 99u64;
    let mut st = HostState { rng: seed };
    for _ in 0..1000 {
        st.next_u64();
        assert_ne!(st.rng, seed);
    }
}
