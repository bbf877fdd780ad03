use ultitato::base36::{decode, encode, GameID, UniformID, MAX, MIN};

#[test]
fn encode_writes_single_digits() {
    assert_eq!(encode(0), "0");
    assert_eq!(encode(9), "9");
    assert_eq!(encode(10), "a");
    assert_eq!(encode(35), "z");
}

#[test]
fn encode_writes_most_significant_first() {
    assert_eq!(encode(36), "10");
    assert_eq!(encode(36 * 36 + 2 * 36 + 11), "12b");
    assert_eq!(encode(u32::MAX), "1z141z3");
}

#[test]
fn encode_of_the_limits_has_six_and_seven_symbols() {
    assert_eq!(MIN, 36u32.pow(5));
    assert_eq!(MAX, 36u32.pow(6));
    assert_eq!(encode(MIN), "100000");
    assert_eq!(encode(MAX - 1), "zzzzzz");
    assert_eq!(encode(MAX), "1000000");
}

#[test]
fn decode_reads_symbols() {
    assert_eq!(decode("0"), Some(0));
    assert_eq!(decode("z"), Some(35));
    assert_eq!(decode("10"), Some(36));
    assert_eq!(decode("12b"), Some(36 * 36 + 2 * 36 + 11));
    assert_eq!(decode("zzzzzz"), Some(MAX - 1));
}

#[test]
fn decode_of_nothing_is_zero() {
    assert_eq!(decode(""), Some(0));
}

#[test]
fn decode_ignores_leading_zeros() {
    assert_eq!(decode("000a"), Some(10));
    assert_eq!(decode("0100000"), Some(MIN));
}

#[test]
fn decode_rejects_other_characters() {
    assert_eq!(decode("A"), None);
    assert_eq!(decode("12 3"), None);
    assert_eq!(decode("-1"), None);
    assert_eq!(decode("abc!"), None);
    assert_eq!(decode("été"), None);
    assert_eq!(decode("!zzzzzzzzzzzz"), None);
}

#[test]
fn decode_rejects_what_does_not_fit() {
    assert_eq!(decode("1z141z3"), Some(u32::MAX));
    assert_eq!(decode("1z141z4"), None);
    assert_eq!(decode("zzzzzzz"), None);
    assert_eq!(decode("10000000000000"), None);
}

#[test]
fn decode_undoes_encode() {
    let mut n: u32 = MIN;
    while n < MAX {
        assert_eq!(decode(&encode(n)), Some(n));
        n += 7_919_317;
    }
    for n in [0, 1, 35, 36, MIN - 1, MIN, MAX - 1, MAX, u32::MAX] {
        assert_eq!(decode(&encode(n)), Some(n));
    }
}

#[test]
fn new_rand_draws_room_codes() {
    let gen = UniformID::default();
    for _ in 0..200 {
        let id = GameID::new_rand(&gen);
        assert_eq!(id.0.len(), 6);
        let n = id.number().unwrap();
        assert!(MIN <= n && n < MAX);
        assert_eq!(encode(n), id.0);
        assert_eq!(decode(&id.0), Some(n));
    }
}

#[test]
fn number_tells_codes_from_other_text() {
    assert_eq!(GameID::from("100000".to_string()).number(), Some(MIN));
    assert_eq!(GameID::from("zzzzzz".to_string()).number(), Some(MAX - 1));
    assert_eq!(GameID::from("0zzzzz".to_string()).number(), None);
    assert_eq!(GameID::from("0100000".to_string()).number(), None);
    assert_eq!(GameID::from("zzzzz".to_string()).number(), None);
    assert_eq!(GameID::from("ZZZZZZ".to_string()).number(), None);
    assert_eq!(GameID::from("".to_string()).number(), None);
    assert_eq!(GameID::from("ééé".to_string()).number(), None);
}

#[test]
fn from_number_and_to_string_agree_with_encode() {
    let id = GameID::from_number(MIN + 12345);
    assert_eq!(id.to_string(), encode(MIN + 12345));
    assert_eq!(id.clone(), id);
    assert_eq!(id.number(), Some(MIN + 12345));
}

#[test]
fn new_rand_does_not_keep_to_one_code() {
    let gen = UniformID::default();
    let first = GameID::new_rand(&gen);
    let mut other = false;
    for _ in 0..64 {
        other = other || GameID::new_rand(&gen) != first;
    }
    assert!(other);
}
