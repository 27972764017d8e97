use dri::codec::{decode, encode, CodecError};

#[test]
fn encode_foo() {
    assert_eq!(encode("foo").unwrap(), "ggpgpg");
}

#[test]
fn round_trip_simple() {
    let code = encode("foo").unwrap();
    assert_eq!(decode(&code).unwrap(), "foo");
}

#[test]
fn round_trip_various() {
    for name in ["a", "x", "my-box", "A_Z.09", "exactly-twenty-chars"] {
        assert_eq!(name.len() <= 20, true);
        let code = encode(name).unwrap();
        assert_eq!(code.len(), 2 * name.len());
        assert_eq!(decode(&code).unwrap(), name);
    }
}

#[test]
fn round_trip_empty() {
    let code = encode("").unwrap();
    assert_eq!(code, "");
    assert_eq!(decode(&code).unwrap(), "");
}

#[test]
fn encode_rejects_long_name() {
    assert_eq!(encode("exactly-twenty-chars").is_ok(), true);
    assert_eq!(
        encode("twenty-one-characters").unwrap_err(),
        CodecError::TooLong
    );
}

#[test]
fn encode_length_is_double() {
    assert_eq!(encode("x").unwrap().len(), 2);
    assert_eq!(encode("abc").unwrap().len(), 6);
    assert_eq!(encode("exactly-twenty-chars").unwrap().len(), 40);
}

#[test]
fn encode_alphabet() {
    for name in ["foo", "my-box", "exactly-twenty-chars"] {
        for c in encode(name).unwrap().chars() {
            assert!(('a'..='p').contains(&c));
        }
    }
}

#[test]
fn decode_rejects_odd_length() {
    assert_eq!(decode("abc").unwrap_err(), CodecError::OddLength);
    assert_eq!(decode("g").unwrap_err(), CodecError::OddLength);
}

#[test]
fn decode_rejects_out_of_alphabet() {
    assert_eq!(decode("zz").unwrap_err(), CodecError::BadAlphabet);
    assert_eq!(decode("gq").unwrap_err(), CodecError::BadAlphabet);
    assert_eq!(decode("AA").unwrap_err(), CodecError::BadAlphabet);
    // Two bytes of non-ASCII text are of even length but out of alphabet.
    assert_eq!(decode("\u{e9}").unwrap_err(), CodecError::BadAlphabet);
}

#[test]
fn decode_rejects_too_long() {
    let code = "gg".repeat(21);
    assert_eq!(code.len(), 42);
    assert_eq!(decode(&code).unwrap_err(), CodecError::TooLong);
}

#[test]
fn decode_rejects_invalid_text() {
    // "pp" rebuilds the byte 0xFF, which no text holds.
    assert_eq!(decode("pp").unwrap_err(), CodecError::NotText);
}

#[test]
fn accepted_codes_come_from_encode() {
    // Every code decode accepts re-encodes to itself.
    for code in ["", "egfg", "ggpgpg", "ihih"] {
        let name = decode(code).unwrap();
        assert_eq!(encode(&name).unwrap(), code);
    }
}

#[test]
fn decode_rejects_foreign_code() {
    // Not produced by any encode: valid alphabet but a continuation byte.
    assert_eq!(decode("aa").unwrap(), "\0");
    assert_eq!(decode("ai").unwrap_err(), CodecError::NotText);
}
