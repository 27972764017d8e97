//! The reversible codec between operator-chosen names and engine-safe
//! identifier strings.
//!
//! Each input byte becomes two output characters, one per nibble (low nibble
//! first), drawn from the sixteen-letter alphabet `'a'..='p'`. The code is
//! therefore exactly twice as long as the name, consists of lowercase ASCII
//! letters only, and decodes back to the original name.

use vstd::prelude::*;
use vstd::string::StringSliceAdditionalSpecFns;
use vstd::utf8::{decode_utf8, encode_utf8, is_ascii_chars, valid_utf8};

verus! {

/// How the codec can reject an input.
#[derive(Debug, Clone, Copy, PartialEq, Eq, Structural)]
pub enum CodecError {
    /// A name longer than 20 bytes, or a code longer than 40 bytes.
    TooLong,
    /// A code of odd length.
    OddLength,
    /// A code with a character outside `'a'..='p'`.
    BadAlphabet,
    /// A code whose reconstructed bytes are not valid text.
    NotText,
}

/// The longest name the codec accepts, in bytes.
pub const MAX_NAME_BYTES: usize = 20;

/// The longest code the codec accepts, in bytes: two per name byte.
pub const MAX_CODE_BYTES: usize = 40;

/// A code byte: one of the sixteen lowercase letters `'a'..='p'`.
pub open spec fn in_alphabet(b: u8) -> bool {
    0x61 <= b <= 0x70
}

/// Every byte of the sequence lies in the code alphabet.
pub open spec fn all_in_alphabet(cs: Seq<u8>) -> bool {
    forall|i: int| 0 <= i < cs.len() ==> in_alphabet(#[trigger] cs[i])
}

/// The code byte carrying the low nibble of a name byte.
pub open spec fn lo_code(b: u8) -> u8 {
    (b % 16 + 0x61) as u8
}

/// The code byte carrying the high nibble of a name byte.
pub open spec fn hi_code(b: u8) -> u8 {
    (b / 16 + 0x61) as u8
}

/// The name byte rebuilt from a pair of code bytes (low nibble first).
pub open spec fn pair_byte(c0: u8, c1: u8) -> u8
    recommends
        in_alphabet(c0),
        in_alphabet(c1),
{
    ((c0 - 0x61) + 16 * (c1 - 0x61)) as u8
}

/// The code bytes of a name: two per name byte, low nibble first.
pub open spec fn encode_bytes(bs: Seq<u8>) -> Seq<u8> {
    Seq::new(
        (2 * bs.len()) as nat,
        |i: int| if i % 2 == 0 {
            lo_code(bs[i / 2])
        } else {
            hi_code(bs[i / 2])
        },
    )
}

/// The name bytes rebuilt from a code, pairing code bytes two by two.
pub open spec fn decode_raw(cs: Seq<u8>) -> Seq<u8>
    recommends
        cs.len() % 2 == 0,
{
    Seq::new((cs.len() / 2) as nat, |i: int| pair_byte(cs[2 * i], cs[2 * i + 1]))
}

/// The codes that `decode` accepts: short enough, of even length, drawn from
/// the alphabet, and rebuilding valid text.
pub open spec fn decode_ok(cs: Seq<u8>) -> bool {
    &&& cs.len() <= MAX_CODE_BYTES
    &&& cs.len() % 2 == 0
    &&& all_in_alphabet(cs)
    &&& valid_utf8(decode_raw(cs))
}

/// The name a code decodes to, as characters.
pub open spec fn decoded_name(cs: Seq<u8>) -> Seq<char>
    recommends
        decode_ok(cs),
{
    decode_utf8(decode_raw(cs))
}

/// The character a code byte prints as.
pub open spec fn byte_char(b: u8) -> char
    recommends
        in_alphabet(b),
{
    if b == 0x61 {
        'a'
    } else if b == 0x62 {
        'b'
    } else if b == 0x63 {
        'c'
    } else if b == 0x64 {
        'd'
    } else if b == 0x65 {
        'e'
    } else if b == 0x66 {
        'f'
    } else if b == 0x67 {
        'g'
    } else if b == 0x68 {
        'h'
    } else if b == 0x69 {
        'i'
    } else if b == 0x6a {
        'j'
    } else if b == 0x6b {
        'k'
    } else if b == 0x6c {
        'l'
    } else if b == 0x6d {
        'm'
    } else if b == 0x6e {
        'n'
    } else if b == 0x6f {
        'o'
    } else {
        'p'
    }
}

/// A sequence of code bytes as the characters they print as.
pub open spec fn code_chars(cs: Seq<u8>) -> Seq<char> {
    cs.map_values(|b: u8| byte_char(b))
}

/// The single-character string for one code byte.
fn alpha_str(b: u8) -> (s: &'static str)
    requires
        in_alphabet(b),
    ensures
        s@ == seq![byte_char(b)],
{
    if b == 0x61 {
        proof {
            reveal_strlit("a");
            assert("a"@ =~= seq![byte_char(b)]);
        }
        "a"
    } else if b == 0x62 {
        proof {
            reveal_strlit("b");
            assert("b"@ =~= seq![byte_char(b)]);
        }
        "b"
    } else if b == 0x63 {
        proof {
            reveal_strlit("c");
            assert("c"@ =~= seq![byte_char(b)]);
        }
        "c"
    } else if b == 0x64 {
        proof {
            reveal_strlit("d");
            assert("d"@ =~= seq![byte_char(b)]);
        }
        "d"
    } else if b == 0x65 {
        proof {
            reveal_strlit("e");
            assert("e"@ =~= seq![byte_char(b)]);
        }
        "e"
    } else if b == 0x66 {
        proof {
            reveal_strlit("f");
            assert("f"@ =~= seq![byte_char(b)]);
        }
        "f"
    } else if b == 0x67 {
        proof {
            reveal_strlit("g");
            assert("g"@ =~= seq![byte_char(b)]);
        }
        "g"
    } else if b == 0x68 {
        proof {
            reveal_strlit("h");
            assert("h"@ =~= seq![byte_char(b)]);
        }
        "h"
    } else if b == 0x69 {
        proof {
            reveal_strlit("i");
            assert("i"@ =~= seq![byte_char(b)]);
        }
        "i"
    } else if b == 0x6a {
        proof {
            reveal_strlit("j");
            assert("j"@ =~= seq![byte_char(b)]);
        }
        "j"
    } else if b == 0x6b {
        proof {
            reveal_strlit("k");
            assert("k"@ =~= seq![byte_char(b)]);
        }
        "k"
    } else if b == 0x6c {
        proof {
            reveal_strlit("l");
            assert("l"@ =~= seq![byte_char(b)]);
        }
        "l"
    } else if b == 0x6d {
        proof {
            reveal_strlit("m");
            assert("m"@ =~= seq![byte_char(b)]);
        }
        "m"
    } else if b == 0x6e {
        proof {
            reveal_strlit("n");
            assert("n"@ =~= seq![byte_char(b)]);
        }
        "n"
    } else if b == 0x6f {
        proof {
            reveal_strlit("o");
            assert("o"@ =~= seq![byte_char(b)]);
        }
        "o"
    } else {
        proof {
            reveal_strlit("p");
            assert("p"@ =~= seq![byte_char(b)]);
        }
        "p"
    }
}

/// Relies on `String::from_utf8` from std: it returns `Ok` exactly when the
/// input bytes are valid UTF-8, and the returned string's bytes are the input
/// bytes.
#[verifier::external_body]
fn string_from_utf8(v: Vec<u8>) -> (r: Option<String>)
    ensures
        r is Some <==> valid_utf8(v@),
        r is Some ==> encode_utf8(r->Some_0@) == v@,
{
    String::from_utf8(v).ok()
}

/// Encodes an operator-chosen name into its engine-safe code.
///
/// Rejects a name longer than 20 bytes; otherwise emits two alphabet
/// characters per input byte, low nibble first.
pub fn encode(input: &str) -> (r: Result<String, CodecError>)
    ensures
        r is Ok <==> input.spec_bytes().len() <= MAX_NAME_BYTES,
        r is Err ==> r->Err_0 == CodecError::TooLong,
        r is Ok ==> r->Ok_0@ == code_chars(encode_bytes(input.spec_bytes())),
        r is Ok ==> r->Ok_0@.len() == 2 * input.spec_bytes().len(),
        r is Ok ==> forall|i: int|
            0 <= i < r->Ok_0@.len() ==> 'a' <= #[trigger] r->Ok_0@[i] <= 'p',
{
    let bytes = input.as_bytes();
    if bytes.len() > MAX_NAME_BYTES {
        return Err(CodecError::TooLong);
    }
    let ghost target = code_chars(encode_bytes(bytes@));
    proof {
        lemma_code_round_trip(bytes@);
    }
    let mut out = String::new();
    let mut i: usize = 0;
    while i < bytes.len()
        invariant
            0 <= i <= bytes@.len(),
            target == code_chars(encode_bytes(bytes@)),
            out@ =~= target.take(2 * i),
        decreases bytes@.len() - i,
    {
        let b = *vstd::slice::slice_index_get(bytes, i);
        let lo = b % 16 + 0x61;
        let hi = b / 16 + 0x61;
        proof {
            lemma_nibble_round_trip(b);
            assert(lo == lo_code(bytes@[i as int]) && hi == hi_code(bytes@[i as int]));
        }
        out.append(alpha_str(lo));
        out.append(alpha_str(hi));
        proof {
            assert(out@ =~= target.take(2 * (i + 1)));
        }
        i += 1;
    }
    proof {
        assert(out@ =~= target);
        lemma_code_alphabet_chars(encode_bytes(bytes@));
    }
    Ok(out)
}

/// Every character printed for an in-alphabet code byte lies in `'a'..='p'`.
proof fn lemma_code_alphabet_chars(cs: Seq<u8>)
    requires
        all_in_alphabet(cs),
    ensures
        forall|i: int| 0 <= i < cs.len() ==> 'a' <= #[trigger] code_chars(cs)[i] <= 'p',
{
    assert forall|i: int| 0 <= i < cs.len() implies 'a' <= #[trigger] code_chars(cs)[i]
        <= 'p' by {
        assert(in_alphabet(cs[i]));
    }
}

/// Code characters are ASCII, and their UTF-8 bytes are the code bytes
/// themselves.
pub proof fn lemma_code_chars_bytes(cs: Seq<u8>)
    requires
        all_in_alphabet(cs),
    ensures
        is_ascii_chars(code_chars(cs)),
        encode_utf8(code_chars(cs)) == cs,
{
    let ch = code_chars(cs);
    assert forall|i: int| 0 <= i < ch.len() implies '\0' <= #[trigger] ch[i] <= '\u{7f}' by {
        assert(in_alphabet(cs[i]));
    }
    assert(is_ascii_chars(ch));
    vstd::utf8::is_ascii_chars_encode_utf8(ch);
    assert forall|i: int| 0 <= i < ch.len() implies #[trigger] encode_utf8(ch)[i] == cs[i] by {
        assert(in_alphabet(cs[i]));
        assert(ch[i] == byte_char(cs[i]));
        assert(byte_char(cs[i]) as u8 == cs[i]);
    }
    assert(encode_utf8(ch) =~= cs);
}

/// Decodes an engine-safe code, given as its bytes, back into the name.
///
/// Rejects a code longer than 40 bytes or of odd length, a character outside
/// `'a'..='p'`, and a code whose rebuilt bytes are not valid text.
pub fn decode_bytes(code: &[u8]) -> (r: Result<String, CodecError>)
    ensures
        r is Ok <==> decode_ok(code@),
        r is Ok ==> r->Ok_0@ == decoded_name(code@),
        r is Ok ==> encode_utf8(r->Ok_0@) == decode_raw(code@),
        code@.len() > MAX_CODE_BYTES ==> r == Err::<String, CodecError>(CodecError::TooLong),
        code@.len() <= MAX_CODE_BYTES && code@.len() % 2 != 0 ==> r == Err::<
            String,
            CodecError,
        >(CodecError::OddLength),
        code@.len() <= MAX_CODE_BYTES && code@.len() % 2 == 0 && !all_in_alphabet(code@) ==> r
            == Err::<String, CodecError>(CodecError::BadAlphabet),
        code@.len() <= MAX_CODE_BYTES && code@.len() % 2 == 0 && all_in_alphabet(code@)
            && !valid_utf8(decode_raw(code@)) ==> r == Err::<String, CodecError>(
            CodecError::NotText,
        ),
{
    let n = code.len();
    if n > MAX_CODE_BYTES {
        return Err(CodecError::TooLong);
    }
    if n % 2 != 0 {
        return Err(CodecError::OddLength);
    }
    let half = n / 2;
    let mut out: Vec<u8> = Vec::new();
    let mut i: usize = 0;
    while i < half
        invariant
            half == code@.len() / 2,
            code@.len() <= MAX_CODE_BYTES,
            code@.len() % 2 == 0,
            0 <= i <= half,
            out@.len() == i,
            forall|j: int| 0 <= j < i ==> out@[j] == pair_byte(code@[2 * j], code@[2 * j + 1]),
            forall|j: int| 0 <= j < 2 * i ==> in_alphabet(#[trigger] code@[j]),
        decreases half - i,
    {
        let c0 = *vstd::slice::slice_index_get(code, 2 * i);
        let c1 = *vstd::slice::slice_index_get(code, 2 * i + 1);
        if !(0x61 <= c0 && c0 <= 0x70) || !(0x61 <= c1 && c1 <= 0x70) {
            return Err(CodecError::BadAlphabet);
        }
        out.push((c0 - 0x61) + 16 * (c1 - 0x61));
        i += 1;
    }
    proof {
        assert forall|j: int| 0 <= j < code@.len() implies in_alphabet(#[trigger] code@[j]) by {
            assert(j == 2 * (j / 2) || j == 2 * (j / 2) + 1);
        }
        assert(out@ =~= decode_raw(code@));
    }
    match string_from_utf8(out) {
        Some(s) => {
            proof {
                vstd::utf8::encode_utf8_decode_utf8(s@);
            }
            Ok(s)
        },
        None => Err(CodecError::NotText),
    }
}

/// Decodes an engine-safe code string back into the name it encodes.
pub fn decode(input: &str) -> (r: Result<String, CodecError>)
    ensures
        r is Ok <==> decode_ok(input.spec_bytes()),
        r is Ok ==> r->Ok_0@ == decoded_name(input.spec_bytes()),
        r is Ok ==> encode_utf8(r->Ok_0@) == decode_raw(input.spec_bytes()),
        input.spec_bytes().len() > MAX_CODE_BYTES ==> r == Err::<String, CodecError>(
            CodecError::TooLong,
        ),
        input.spec_bytes().len() <= MAX_CODE_BYTES && input.spec_bytes().len() % 2 != 0 ==> r
            == Err::<String, CodecError>(CodecError::OddLength),
        input.spec_bytes().len() <= MAX_CODE_BYTES && input.spec_bytes().len() % 2 == 0
            && !all_in_alphabet(input.spec_bytes()) ==> r == Err::<String, CodecError>(
            CodecError::BadAlphabet,
        ),
        input.spec_bytes().len() <= MAX_CODE_BYTES && input.spec_bytes().len() % 2 == 0
            && all_in_alphabet(input.spec_bytes()) && !valid_utf8(decode_raw(input.spec_bytes()))
            ==> r == Err::<String, CodecError>(CodecError::NotText),
{
    decode_bytes(input.as_bytes())
}

/// Both code bytes of a name byte lie in the alphabet, and pairing them back
/// rebuilds the name byte.
pub proof fn lemma_nibble_round_trip(b: u8)
    ensures
        in_alphabet(lo_code(b)),
        in_alphabet(hi_code(b)),
        pair_byte(lo_code(b), hi_code(b)) == b,
{
    vstd::arithmetic::div_mod::lemma_fundamental_div_mod(b as int, 16);
}

/// The code of a name is twice as long, lies in the alphabet, and pairs back
/// to the name's bytes.
pub proof fn lemma_code_round_trip(bs: Seq<u8>)
    ensures
        encode_bytes(bs).len() == 2 * bs.len(),
        all_in_alphabet(encode_bytes(bs)),
        decode_raw(encode_bytes(bs)) =~= bs,
{
    let code = encode_bytes(bs);
    assert forall|i: int| 0 <= i < code.len() implies in_alphabet(#[trigger] code[i]) by {
        lemma_nibble_round_trip(bs[i / 2]);
    }
    assert forall|i: int| 0 <= i < bs.len() implies decode_raw(code)[i] == bs[i] by {
        lemma_nibble_round_trip(bs[i]);
    }
}

/// Pairing a pair of code bytes back apart rebuilds both code bytes.
pub proof fn lemma_pair_split(c0: u8, c1: u8)
    requires
        in_alphabet(c0),
        in_alphabet(c1),
    ensures
        lo_code(pair_byte(c0, c1)) == c0,
        hi_code(pair_byte(c0, c1)) == c1,
{
    let b = pair_byte(c0, c1) as int;
    vstd::arithmetic::div_mod::lemma_fundamental_div_mod_converse(
        b,
        16,
        c1 - 0x61,
        c0 - 0x61,
    );
}

/// `decode` is partial exactly onto `encode`'s range: every code it accepts
/// is the code of the name it rebuilds, so no two accepted codes collide and
/// nothing outside the scheme slips through.
pub proof fn lemma_code_of_decoded(cs: Seq<u8>)
    requires
        cs.len() % 2 == 0,
        all_in_alphabet(cs),
    ensures
        encode_bytes(decode_raw(cs)) =~= cs,
{
    let bs = decode_raw(cs);
    assert forall|i: int| 0 <= i < cs.len() implies encode_bytes(bs)[i] == cs[i] by {
        let j = i / 2;
        assert(i == 2 * j || i == 2 * j + 1);
        lemma_pair_split(cs[2 * j], cs[2 * j + 1]);
    }
}

/// Round trip: every ASCII name of 1 to 20 characters comes back unchanged.
///
/// `encode` maps such a name to the code characters of its bytes; read back
/// as a string, that code's bytes satisfy `decode_ok`, and `decode` rebuilds
/// exactly the original characters.
pub proof fn lemma_round_trip(name: Seq<char>)
    requires
        1 <= name.len() <= MAX_NAME_BYTES,
        is_ascii_chars(name),
    ensures
        ({
            let code = encode_bytes(encode_utf8(name));
            &&& encode_utf8(code_chars(code)) == code
            &&& decode_ok(code)
            &&& decoded_name(code) == name
        }),
{
    let bs = encode_utf8(name);
    let code = encode_bytes(bs);
    vstd::utf8::is_ascii_chars_encode_utf8(name);
    lemma_code_round_trip(bs);
    lemma_code_chars_bytes(code);
    vstd::utf8::encode_utf8_valid_utf8(name);
    assert(decode_raw(code) == bs);
    vstd::utf8::encode_utf8_decode_utf8(name);
}

} // verus!
