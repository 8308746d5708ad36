use rmwrs::utils::{
    is_unreserved, percent_decode, percent_encode, percent_encode_char, percent_encode_reserved,
    PercentDecodeError,
};

#[test]
fn utils_test_escape_url() {
    assert_eq!(percent_encode("~/foo/bar&/baz boom"), "~/foo/bar%26/baz%20boom");
    assert_eq!(percent_encode("~/hello&there/🐢👀🍻"), "~/hello%26there/🐢👀🍻");
}

#[test]
fn utils_test_unescape_url() {
    assert_eq!(percent_decode("~/foo/bar%26/baz%20boom").unwrap(), "~/foo/bar&/baz boom");
    assert_eq!(percent_decode("~/hello%26there/🐢👀🍻").unwrap(), "~/hello&there/🐢👀🍻");
}

#[test]
fn test_invalid_unescape() {
    assert_eq!(
        percent_decode("~/foo/bar%26/baz%20boom%"),
        Err(PercentDecodeError("Char missing in encoding."))
    );
    assert_eq!(
        percent_decode("~/foo/bar%26/baz%2Zboom%"),
        Err(PercentDecodeError("Error parsing hex to char."))
    );
}

#[test]
fn encode_char_pads_to_two_lowercase_digits() {
    assert_eq!(percent_encode_char('\n'), "%0a");
    assert_eq!(percent_encode_char(' '), "%20");
    assert_eq!(percent_encode_char('\u{7f}'), "%7f");
    assert_eq!(percent_encode_char('é'), "%e9");
    assert_eq!(percent_encode_char('🐢'), "%1f422");
}

#[test]
fn encode_reserved_keeps_unreserved() {
    assert_eq!(percent_encode_reserved('a'), "a");
    assert_eq!(percent_encode_reserved('/'), "/");
    assert_eq!(percent_encode_reserved('é'), "é");
    assert_eq!(percent_encode_reserved('%'), "%25");
    assert_eq!(percent_encode_reserved('#'), "%23");
}

#[test]
fn unreserved_characters() {
    for c in ['A', 'Z', 'a', 'z', '0', '9', '-', '_', '~', '.', '/', 'é', '🐢'] {
        assert!(is_unreserved(c), "{:?}", c);
    }
    for c in [' ', '%', '&', '#', '?', '+', '\n', '\u{7f}', ':', '@'] {
        assert!(!is_unreserved(c), "{:?}", c);
    }
}

#[test]
fn encode_empty_and_plain() {
    assert_eq!(percent_encode(""), "");
    assert_eq!(percent_encode("/home/foo/bar.txt"), "/home/foo/bar.txt");
    assert_eq!(percent_encode("100%"), "100%25");
}

#[test]
fn decode_missing_chars() {
    let missing = Err(PercentDecodeError("Char missing in encoding."));
    assert_eq!(percent_decode("%"), missing);
    assert_eq!(percent_decode("a%2"), missing);
}

#[test]
fn decode_bad_hex_comes_before_later_missing() {
    assert_eq!(
        percent_decode("%zz%"),
        Err(PercentDecodeError("Error parsing hex to char."))
    );
    assert_eq!(
        percent_decode("%-1"),
        Err(PercentDecodeError("Error parsing hex to char."))
    );
    assert_eq!(
        percent_decode("%++"),
        Err(PercentDecodeError("Error parsing hex to char."))
    );
    assert_eq!(
        percent_decode("%é1"),
        Err(PercentDecodeError("Error parsing hex to char."))
    );
}

#[test]
fn decode_hex_forms() {
    assert_eq!(percent_decode("%2F%2f").unwrap(), "//");
    assert_eq!(percent_decode("%+a").unwrap(), "\n");
    assert_eq!(percent_decode("%e9").unwrap(), "é");
    assert_eq!(percent_decode("%ff").unwrap(), "\u{ff}");
    assert_eq!(percent_decode("").unwrap(), "");
    assert_eq!(percent_decode("no escapes 🍻").unwrap(), "no escapes 🍻");
}

#[test]
fn decode_undoes_encode() {
    for s in [
        "",
        "~/foo/bar&/baz boom",
        "100% sure?#frag",
        "tab\there\nnewline",
        "~/hello&there/🐢👀🍻",
        "%%%",
        "\u{0}\u{1}\u{7f}",
    ] {
        assert_eq!(percent_decode(&percent_encode(s)).unwrap(), s);
    }
}

#[test]
fn encode_of_concatenation() {
    let a = "x y&";
    let b = "z%w";
    assert_eq!(
        percent_encode(&format!("{}{}", a, b)),
        format!("{}{}", percent_encode(a), percent_encode(b))
    );
}

#[test]
fn encoded_text_is_safe() {
    let e = percent_encode("a b\u{1}#%ü");
    assert!(e.chars().all(|c| c == '%' || is_unreserved(c)));
}

#[test]
fn decode_error_message() {
    assert_eq!(
        PercentDecodeError("Char missing in encoding.").message(),
        "Char missing in encoding."
    );
}
