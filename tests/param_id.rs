use param_strings::param_id::hash_param_id;

#[test]
fn hash_of_empty_string_is_zero() {
    assert_eq!(hash_param_id(""), 0);
}

#[test]
fn hash_golden_values() {
    assert_eq!(hash_param_id("a"), 97);
    assert_eq!(hash_param_id("gain"), 3165055);
    assert_eq!(hash_param_id("Gain"), 2211743);
    assert_eq!(hash_param_id("mix"), 108124);
    assert_eq!(hash_param_id("bypass"), 773352680);
    assert_eq!(hash_param_id("output_gain"), 1322673149);
    assert_eq!(hash_param_id("This is a long parameter name"), 1630419251);
}

#[test]
fn hash_uses_utf8_bytes() {
    assert_eq!(hash_param_id("h\u{e9}llo"), 1015176577);
    assert_eq!(hash_param_id("\u{1f3b9}"), 7307226);
}

#[test]
fn hash_clears_sign_bit() {
    // The accumulators of these names have bit 31 set before masking.
    for name in ["bypass", "output_gain", "h\u{e9}llo"] {
        assert_eq!(hash_param_id(name) & 0x8000_0000, 0);
    }
    for name in ["", "gain", "a much longer name with many characters in it"] {
        assert_eq!(hash_param_id(name) & 0x8000_0000, 0);
    }
}

#[test]
fn hash_of_equal_strings_is_equal() {
    let owned = String::from("gain");
    assert_eq!(hash_param_id(&owned), hash_param_id("gain"));
    assert_eq!(hash_param_id("bypass"), hash_param_id("bypass"));
    assert_ne!(hash_param_id("gain"), hash_param_id("Gain"));
}
