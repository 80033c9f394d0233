use replication_game::error::Error;
use replication_game::replica::{fit_replica_id, id_from_str, replica_id_from_hex};
use replication_game::seed::{
    authenticate, get_seed, issue, seed_at, seed_for_reading, timestamp_from_seconds, SecretKey,
    Seed,
};

const TAG_MY_KEY_1234: &str = "789baa9706c56cf6ee20078f27f466b30b4aac080227a04be4744c93e00870f30027e89322da183dcec06c00d688d8fcd6e804d0e20d71a6d142054acf318106";
const TAG_MY_KEY_0: &str = "6d1fef388c7e4f65e9ea20d46b34ca87358d345905b4a02d26e24286aa5c156e65c06120d493e5a9f8d1fcc1959607ade6f2c16fb9376e3ee24b52a3e568dc02";
const TAG_MY_KEY_MINUS_5: &str = "a19d93daa20bd1c0731d95ca55e470bada36c3af6efbfb4a5ec4acc016e2e4a52c2045f467879738c89c686eb6d5c16b7e23d626ddae8d269697a45cf7b55e32";
const TAG_K_1556000000: &str = "a7fec1a5c91050618d426dace9d4fdb46097cb789339afcd8f6502394390deb3eea696ea93b802998ed4b8b4f7f6c7a498e19fc760e43976511a400987aa475a";
const TAG_EMPTY_KEY_7: &str = "d5c47f63555ae063383c2a0df82bf309d90932bc8dd66a056d80e4d913e821faacf7e0e962c7bbac6c193e1e638b58b8baa1e71f57a945958b84c11536b7a82d";
const TAG_LONGEST_KEY_MAX: &str = "a4ebef401955d28f8fe82affe30637ba21755e3e05161f628babbb08d9df8f4a3a4db5b0ac5ba5c588fa861a966e3bbcdf294b1186ead5bc22fe9aa19137b319";
const TAG_MY_KEY_MIN: &str = "26f3d785f89aa713979a64e5476e21aa731f1519b7ed41cf0a20bd473e7789653c60fa067df5b3c65c5b27a8a197e7571f65f1d360f2556f1c51252848d1fc4b";

fn key(bytes: &[u8]) -> SecretKey {
    SecretKey::new(bytes).unwrap()
}

#[test]
fn seed_holds_its_fields() {
    let s = Seed { timestamp: 7, seed: String::from("00ff") };
    assert_eq!(s.timestamp, 7);
    assert_eq!(s.seed, "00ff");
    assert_eq!(s.clone(), s);
}

#[test]
fn issue_gives_the_keyed_tag_in_hex() {
    let seed = issue(1234, &key(b"my key"));
    assert_eq!(seed.timestamp, 1234);
    assert_eq!(seed.seed, TAG_MY_KEY_1234);
}

#[test]
fn issue_at_zero_and_below() {
    assert_eq!(issue(0, &key(b"my key")).seed, TAG_MY_KEY_0);
    assert_eq!(issue(-5, &key(b"my key")).seed, TAG_MY_KEY_MINUS_5);
    assert_eq!(issue(i32::MIN, &key(b"my key")).seed, TAG_MY_KEY_MIN);
}

#[test]
fn issue_under_other_keys() {
    assert_eq!(issue(1556000000, &key(b"k")).seed, TAG_K_1556000000);
    assert_eq!(issue(7, &key(b"")).seed, TAG_EMPTY_KEY_7);
    assert_eq!(issue(i32::MAX, &key(&[b'x'; 64])).seed, TAG_LONGEST_KEY_MAX);
}

#[test]
fn issued_seed_authenticates_under_its_key() {
    for timestamp in [i32::MIN, -1, 0, 1, 1234, 1556000000, i32::MAX] {
        for k in [&b""[..], b"k", b"my key", &[7u8; 64]] {
            let secret = key(k);
            assert!(authenticate(&issue(timestamp, &secret), &secret));
        }
    }
}

#[test]
fn issued_seed_fails_under_another_key() {
    let seed = issue(1234, &key(b"my key"));
    assert!(!authenticate(&seed, &key(b"my kez")));
    assert!(!authenticate(&seed, &key(b"")));
    assert!(!authenticate(&seed, &key(b"my key ")));
}

#[test]
fn seed_for_another_timestamp_fails() {
    let secret = key(b"my key");
    let seed = Seed { timestamp: 1235, seed: String::from(TAG_MY_KEY_1234) };
    assert!(!authenticate(&seed, &secret));
    let seed = Seed { timestamp: 1234, seed: String::from(TAG_MY_KEY_1234) };
    assert!(authenticate(&seed, &secret));
}

#[test]
fn flipped_hex_character_fails() {
    let secret = key(b"my key");
    let good = issue(1234, &secret);
    for at in [0usize, 1, 64, 127] {
        let mut chars: Vec<char> = good.seed.chars().collect();
        chars[at] = if chars[at] == '0' { '1' } else { '0' };
        let bad = Seed { timestamp: 1234, seed: chars.into_iter().collect() };
        assert_ne!(bad.seed, good.seed);
        assert!(!authenticate(&bad, &secret));
    }
}

#[test]
fn capitals_stand_for_the_same_tag() {
    let secret = key(b"my key");
    let seed = Seed { timestamp: 1234, seed: TAG_MY_KEY_1234.to_uppercase() };
    assert!(authenticate(&seed, &secret));
}

#[test]
fn malformed_text_fails_without_panic() {
    let secret = key(b"my key");
    for text in ["", "0", "zz", "789", "78 9b", "\u{e9}\u{e9}", &TAG_MY_KEY_1234[..127], &TAG_MY_KEY_1234[..126]] {
        let seed = Seed { timestamp: 1234, seed: String::from(text) };
        assert!(!authenticate(&seed, &secret));
    }
    let longer = format!("{}00", TAG_MY_KEY_1234);
    assert!(!authenticate(&Seed { timestamp: 1234, seed: longer }, &secret));
}

#[test]
fn key_of_64_bytes_is_the_longest() {
    assert!(SecretKey::new(&[1u8; 64]).is_ok());
    assert!(matches!(SecretKey::new(&[1u8; 65]), Err(Error::Config)));
    assert!(matches!(SecretKey::new(&[0u8; 1000]), Err(Error::Config)));
    assert_eq!(SecretKey::new(b"my key").unwrap().as_bytes(), b"my key");
}

#[test]
fn unconfigured_key_falls_back() {
    let fallback = SecretKey::configured_or_fallback(None).unwrap();
    assert_eq!(fallback.as_bytes(), b"my key");
    assert_eq!(issue(1234, &fallback).seed, TAG_MY_KEY_1234);
    let configured = SecretKey::configured_or_fallback(Some("k")).unwrap();
    assert_eq!(configured.as_bytes(), b"k");
    let long = "y".repeat(65);
    assert!(matches!(SecretKey::configured_or_fallback(Some(&long)), Err(Error::Config)));
}

#[test]
fn seconds_are_cut_to_32_bits() {
    assert_eq!(timestamp_from_seconds(0), 0);
    assert_eq!(timestamp_from_seconds(1556000000), 1556000000);
    assert_eq!(timestamp_from_seconds(0x7fff_ffff), i32::MAX);
    assert_eq!(timestamp_from_seconds(0x8000_0000), i32::MIN);
    assert_eq!(timestamp_from_seconds(0xffff_ffff), -1);
    assert_eq!(timestamp_from_seconds(0x1_0000_0000), 0);
    assert_eq!(timestamp_from_seconds(0x1_0000_04d2), 1234);
    assert_eq!(timestamp_from_seconds(u64::MAX), -1);
}

#[test]
fn seed_at_a_moment() {
    let seed = seed_at(1234, &key(b"my key"));
    assert_eq!(seed, Seed { timestamp: 1234, seed: String::from(TAG_MY_KEY_1234) });
    let wrapped = seed_at(0x1_0000_04d2, &key(b"my key"));
    assert_eq!(wrapped, seed);
}

#[test]
fn seed_for_each_reading_of_the_clock() {
    let secret = key(b"my key");
    assert_eq!(seed_for_reading(None, &secret), None);
    assert_eq!(
        seed_for_reading(Some(1234), &secret),
        Some(Seed { timestamp: 1234, seed: String::from(TAG_MY_KEY_1234) })
    );
    assert_eq!(seed_for_reading(Some(0xffff_fffb), &secret).unwrap().timestamp, -5);
    assert_eq!(seed_for_reading(Some(0xffff_fffb), &secret).unwrap().seed, TAG_MY_KEY_MINUS_5);
}

#[test]
fn seed_of_the_present_moment_is_authentic() {
    let secret = key(b"my key");
    let seed = get_seed(&secret).expect("the clock reads a moment after the epoch");
    assert!(seed.timestamp > 1_500_000_000);
    assert!(authenticate(&seed, &secret));
    assert_eq!(seed, issue(seed.timestamp, &secret));
}

#[test]
fn replica_id_is_the_first_32_bytes() {
    let id = id_from_str(TAG_MY_KEY_1234);
    assert_eq!(
        id,
        vec![
            120, 155, 170, 151, 6, 197, 108, 246, 238, 32, 7, 143, 39, 244, 102, 179, 11, 74,
            172, 8, 2, 39, 160, 75, 228, 116, 76, 147, 224, 8, 112, 243
        ]
    );
}

#[test]
fn short_replica_id_is_filled_with_zeros_in_front() {
    let id = id_from_str("0aFf");
    let mut expected = vec![0u8; 32];
    expected[30] = 10;
    expected[31] = 255;
    assert_eq!(id, expected);
    assert_eq!(id_from_str(""), vec![0u8; 32]);
    let text = "07".repeat(31);
    let mut expected = vec![7u8; 32];
    expected[0] = 0;
    assert_eq!(id_from_str(&text), expected);
}

#[test]
fn replica_id_of_exactly_32_bytes() {
    let text = "01".repeat(32);
    assert_eq!(id_from_str(&text), vec![1u8; 32]);
    let text = format!("{}{}", "01".repeat(32), "02");
    assert_eq!(id_from_str(&text), vec![1u8; 32]);
}

#[test]
fn replica_id_needs_hex() {
    assert_eq!(replica_id_from_hex("xy"), None);
    assert_eq!(replica_id_from_hex("abc"), None);
    assert_eq!(replica_id_from_hex("ab").unwrap()[31], 0xab);
    assert_eq!(fit_replica_id(&[5u8; 40]), vec![5u8; 32]);
    assert_eq!(fit_replica_id(&[]).len(), 32);
}
