use ws_server::client_id::probe_at;

const V4: u128 = 0x1234_5678_9abc_4def_8123_4567_89ab_cdef;

fn is_v4(id: u128) -> bool {
    (id >> 76) & 0xf == 4 && (id >> 62) & 0x3 == 2
}

#[test]
fn the_first_identifier_tried_is_the_one_given() {
    assert_eq!(probe_at(V4, 0), V4);
    assert_eq!(probe_at(0, 0), 0);
    assert_eq!(probe_at(u128::MAX, 0), u128::MAX);
}

#[test]
fn probe_at_flips_free_bits_only() {
    assert_eq!(probe_at(5, 1), 4);
    assert_eq!(probe_at(5, 2), 7);
    assert_eq!(probe_at(0, 1 << 61), 1 << 61);
    assert_eq!(probe_at(0, 1 << 62), 1 << 64);
    assert_eq!(probe_at(0, 1 << 63), 1 << 65);
    assert_eq!(probe_at(0, u64::MAX), 0x3_3fff_ffff_ffff_ffff);
}

#[test]
fn every_identifier_tried_keeps_version_and_variant() {
    assert!(is_v4(V4));
    for k in [0u64, 1, 2, 3, 1 << 61, 1 << 62, 1 << 63, u64::MAX - 1, u64::MAX] {
        assert!(is_v4(probe_at(V4, k)));
    }
}

#[test]
fn no_identifier_is_tried_twice() {
    let mut tried: Vec<u128> = (0..4096u64).map(|k| probe_at(V4, k)).collect();
    tried.extend([1u64 << 62, 1 << 63, 3 << 62, u64::MAX].map(|k| probe_at(V4, k)));
    let total = tried.len();
    tried.sort();
    tried.dedup();
    assert_eq!(tried.len(), total);
}
