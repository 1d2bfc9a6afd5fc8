use arc_replace::hash40::crc32;
use arc_replace::hash40::hash40;

#[test]
fn crc32_of_empty_is_zero() {
    assert_eq!(crc32(b""), 0);
}

#[test]
fn crc32_known_values() {
    assert_eq!(crc32(b"a"), 0xE8B7_BE43);
    assert_eq!(crc32(b"abc"), 0x3524_41C2);
    assert_eq!(crc32(b"123456789"), 0xCBF4_3926);
}

#[test]
fn hash40_packs_length_above_crc() {
    assert_eq!(hash40(b""), 0);
    assert_eq!(hash40(b"abc"), (3u64 << 32) | 0x3524_41C2);
    assert_eq!(
        hash40(b"123456789"),
        (9u64 << 32) | 0xCBF4_3926
    );
}

#[test]
fn hash40_length_wraps_at_one_byte() {
    let long = vec![b'x'; 300];
    let h = hash40(&long);
    assert_eq!(h >> 32, (300 % 256) as u64);
    assert_eq!(h & 0xFFFF_FFFF, crc32(&long) as u64);
}

#[test]
fn hash40_is_deterministic() {
    let path = b"fighter/mario/model.nutexb";
    assert_eq!(hash40(path), hash40(path));
}
