use biliticket::fe_sign::{fmix64, get_fe_sign, murmur_x64_128, random_hex_32, WEBVIEW_UA};

#[test]
fn fe_sign_format_is_32_hex() {
    let s = get_fe_sign(WEBVIEW_UA, "abc", "def");
    assert_eq!(s.len(), 32);
    assert!(s.chars().all(|c| c.is_ascii_hexdigit()));
}

#[test]
fn murmur_matches_known_vector() {
    assert_eq!(murmur_x64_128("", 0), (0, 0));
}

#[test]
fn murmur_hello_vector() {
    assert_eq!(murmur_x64_128("hello", 0), (0xcbd8a7b341bd9b02, 0x5b1e906a48ae1d19));
}

#[test]
fn murmur_long_input_spans_blocks() {
    assert_eq!(
        murmur_x64_128("The quick brown fox jumps over the lazy dog", 0),
        (0xe34bbc7bbc071b6c, 0x7a433ca9c49a9347)
    );
    assert_eq!(murmur_x64_128("abcdefghijklmnopq", 31), (0xf702b859145b74a7, 0x22c30d4f53bb418c));
    assert_eq!(murmur_x64_128("a", 1), (0x47eae1073748cf70, 0x6be0518ad2ed3728));
}

#[test]
fn fmix64_values() {
    assert_eq!(fmix64(0), 0);
    assert_eq!(fmix64(1), 12994781566227106604);
    assert_eq!(fmix64(0xdeadbeef), 15153440252345589164);
}

#[test]
fn fe_sign_exact_values() {
    assert_eq!(get_fe_sign(WEBVIEW_UA, "abc", "def"), "f0ba2a86ea6862852a7fbcbcafe83cc7");
    assert_eq!(get_fe_sign("ua", "", ""), "a955de4016cd774b30701590fc9e252c");
    assert_eq!(get_fe_sign("中文", "x", "y"), "8c86d21c48d38204d1799c5ea09a26e3");
}

#[test]
fn random_hex_is_32_lower_hex() {
    let s = random_hex_32();
    assert_eq!(s.chars().count(), 32);
    assert!(s.chars().all(|c| c.is_ascii_digit() || ('a'..='f').contains(&c)));
}

#[test]
fn fmix64_is_invertible_on_samples() {
    fn unfmix(mut h: u64) -> u64 {
        h ^= h >> 33;
        h = h.wrapping_mul(0x9cb4b2f8129337db);
        h ^= h >> 33;
        h = h.wrapping_mul(0x4f74430c22a54005);
        h ^= h >> 33;
        h
    }
    for k in [0u64, 1, 2, 0xdeadbeef, u64::MAX, 1 << 63] {
        assert_eq!(unfmix(fmix64(k)), k);
    }
}
