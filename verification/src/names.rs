//! The engine naming scheme.
//!
//! A container named `x` lives in the engine as `dri-<code(x)>`; an image
//! named `x` lives as `localhost/dri/<code(x)>:latest`. The reserved sentinel
//! name `default` denotes the fixed base image and bypasses the codec. The
//! parse functions invert the scheme and reject every engine name outside it.

use vstd::prelude::*;
use vstd::string::{StringExecFns, StringSliceAdditionalSpecFns};
use vstd::utf8::{encode_utf8, is_ascii_chars};

use crate::codec::{
    code_chars, decode_bytes, decode_ok, decoded_name, encode, encode_bytes, MAX_NAME_BYTES,
};

verus! {

/// The reserved display name of the base image.
pub open spec fn sentinel() -> Seq<char> {
    "default"@
}

/// The engine identity of the base image.
pub open spec fn base_image_chars() -> Seq<char> {
    "localhost/drix/default:latest"@
}

/// The bytes of `"dri-"`, the container identity prefix.
pub open spec fn container_prefix_bytes() -> Seq<u8> {
    seq![0x64u8, 0x72u8, 0x69u8, 0x2du8]
}

/// The bytes of `"localhost/dri/"`, the image identity prefix.
pub open spec fn image_prefix_bytes() -> Seq<u8> {
    seq![
        0x6cu8,
        0x6fu8,
        0x63u8,
        0x61u8,
        0x6cu8,
        0x68u8,
        0x6fu8,
        0x73u8,
        0x74u8,
        0x2fu8,
        0x64u8,
        0x72u8,
        0x69u8,
        0x2fu8,
    ]
}

/// The bytes of `":latest"`, the image identity suffix.
pub open spec fn image_suffix_bytes() -> Seq<u8> {
    seq![0x3au8, 0x6cu8, 0x61u8, 0x74u8, 0x65u8, 0x73u8, 0x74u8]
}

/// The code characters a name is written as inside engine identities.
pub open spec fn engine_code(name: Seq<char>) -> Seq<char> {
    code_chars(encode_bytes(encode_utf8(name)))
}

/// The engine identity of the container for a name.
pub open spec fn container_ref_chars(name: Seq<char>) -> Seq<char> {
    "dri-"@ + engine_code(name)
}

/// The engine identity of the image for a name.
pub open spec fn image_ref_chars(name: Seq<char>) -> Seq<char> {
    "localhost/dri/"@ + engine_code(name) + ":latest"@
}

/// The code hidden in a container identity, if the identity carries the
/// `dri-` prefix.
pub open spec fn strip_container_code(bs: Seq<u8>) -> Option<Seq<u8>> {
    if bs.len() >= 4 && bs.take(4) =~= container_prefix_bytes() {
        Some(bs.skip(4))
    } else {
        None
    }
}

/// The name a container identity denotes, if it lies in this tool's
/// namespace and its code decodes.
pub open spec fn parse_container_spec(bs: Seq<u8>) -> Option<Seq<char>> {
    match strip_container_code(bs) {
        Some(code) => if decode_ok(code) {
            Some(decoded_name(code))
        } else {
            None
        },
        None => None,
    }
}

/// The code hidden in an image identity, if the identity carries the
/// `localhost/dri/` prefix and the `:latest` suffix.
pub open spec fn strip_image_code(bs: Seq<u8>) -> Option<Seq<u8>> {
    if bs.len() >= 21 && bs.take(14) =~= image_prefix_bytes() && bs.skip(bs.len() - 7)
        =~= image_suffix_bytes() {
        Some(bs.subrange(14, bs.len() - 7))
    } else {
        None
    }
}

/// The name an image identity denotes, if it lies in this tool's namespace
/// and its code decodes.
pub open spec fn parse_image_spec(bs: Seq<u8>) -> Option<Seq<char>> {
    match strip_image_code(bs) {
        Some(code) => if decode_ok(code) {
            Some(decoded_name(code))
        } else {
            None
        },
        None => None,
    }
}

/// The view of the `"dri-"` literal, spelled out.
proof fn lemma_container_prefix()
    ensures
        "dri-"@.len() == 4,
        is_ascii_chars("dri-"@),
        encode_utf8("dri-"@) == container_prefix_bytes(),
{
    reveal_strlit("dri-");
    assert forall|i: int| 0 <= i < "dri-"@.len() implies '\0' <= #[trigger] "dri-"@[i]
        <= '\u{7f}' by {
        assert("dri-"@[0] == 'd' && "dri-"@[1] == 'r' && "dri-"@[2] == 'i' && "dri-"@[3] == '-');
    }
    vstd::utf8::is_ascii_chars_encode_utf8("dri-"@);
    assert(encode_utf8("dri-"@) =~= container_prefix_bytes());
}

/// The views of the `"localhost/dri/"` and `":latest"` literals, spelled out.
proof fn lemma_image_affixes()
    ensures
        "localhost/dri/"@.len() == 14,
        is_ascii_chars("localhost/dri/"@),
        encode_utf8("localhost/dri/"@) == image_prefix_bytes(),
        ":latest"@.len() == 7,
        is_ascii_chars(":latest"@),
        encode_utf8(":latest"@) == image_suffix_bytes(),
{
    reveal_strlit("localhost/dri/");
    reveal_strlit(":latest");
    assert forall|i: int| 0 <= i < "localhost/dri/"@.len() implies '\0'
        <= #[trigger] "localhost/dri/"@[i] <= '\u{7f}' by {
        let s = "localhost/dri/"@;
        assert(s[0] == 'l' && s[1] == 'o' && s[2] == 'c' && s[3] == 'a' && s[4] == 'l' && s[5]
            == 'h' && s[6] == 'o' && s[7] == 's' && s[8] == 't' && s[9] == '/' && s[10] == 'd'
            && s[11] == 'r' && s[12] == 'i' && s[13] == '/');
    }
    assert forall|i: int| 0 <= i < ":latest"@.len() implies '\0' <= #[trigger] ":latest"@[i]
        <= '\u{7f}' by {
        let s = ":latest"@;
        assert(s[0] == ':' && s[1] == 'l' && s[2] == 'a' && s[3] == 't' && s[4] == 'e' && s[5]
            == 's' && s[6] == 't');
    }
    vstd::utf8::is_ascii_chars_encode_utf8("localhost/dri/"@);
    vstd::utf8::is_ascii_chars_encode_utf8(":latest"@);
    assert(encode_utf8("localhost/dri/"@) =~= image_prefix_bytes());
    assert(encode_utf8(":latest"@) =~= image_suffix_bytes());
}

/// The UTF-8 bytes of a concatenation of ASCII character sequences are the
/// concatenation of their UTF-8 bytes.
pub proof fn lemma_ascii_concat_bytes(c1: Seq<char>, c2: Seq<char>)
    requires
        is_ascii_chars(c1),
        is_ascii_chars(c2),
    ensures
        is_ascii_chars(c1 + c2),
        encode_utf8(c1 + c2) == encode_utf8(c1) + encode_utf8(c2),
{
    vstd::utf8::is_ascii_chars_concat(c1 + c2, c1, c2);
    vstd::utf8::is_ascii_chars_encode_utf8(c1);
    vstd::utf8::is_ascii_chars_encode_utf8(c2);
    vstd::utf8::is_ascii_chars_encode_utf8(c1 + c2);
    assert(encode_utf8(c1 + c2) =~= encode_utf8(c1) + encode_utf8(c2));
}

/// Whether two strings hold the same text.
pub fn str_eq(a: &str, b: &str) -> (r: bool)
    ensures
        r <==> a@ == b@,
{
    proof {
        vstd::utf8::encode_utf8_valid_utf8(a@);
        vstd::utf8::encode_utf8_valid_utf8(b@);
        vstd::utf8::encode_utf8_decode_utf8(a@);
        vstd::utf8::encode_utf8_decode_utf8(b@);
    }
    let ab = a.as_bytes();
    let bb = b.as_bytes();
    if ab.len() != bb.len() {
        return false;
    }
    let mut i: usize = 0;
    while i < ab.len()
        invariant
            ab@ == a.spec_bytes(),
            bb@ == b.spec_bytes(),
            ab@.len() == bb@.len(),
            0 <= i <= ab@.len(),
            forall|j: int| 0 <= j < i ==> ab@[j] == bb@[j],
        decreases ab@.len() - i,
    {
        if *vstd::slice::slice_index_get(ab, i) != *vstd::slice::slice_index_get(bb, i) {
            return false;
        }
        i += 1;
    }
    proof {
        assert(a.spec_bytes() =~= b.spec_bytes());
    }
    true
}

/// Whether a string holds the reserved sentinel name `default`.
pub fn is_sentinel(name: &str) -> (r: bool)
    ensures
        r <==> name@ == sentinel(),
{
    str_eq(name, "default")
}

/// Whether the byte slice starts with the given prefix.
fn bytes_has_prefix(bs: &[u8], prefix: &[u8]) -> (r: bool)
    ensures
        r <==> bs@.len() >= prefix@.len() && bs@.take(prefix@.len() as int) =~= prefix@,
{
    if bs.len() < prefix.len() {
        return false;
    }
    let mut i: usize = 0;
    while i < prefix.len()
        invariant
            bs@.len() >= prefix@.len(),
            0 <= i <= prefix@.len(),
            forall|j: int| 0 <= j < i ==> bs@[j] == prefix@[j],
        decreases prefix@.len() - i,
    {
        if *vstd::slice::slice_index_get(bs, i) != *vstd::slice::slice_index_get(prefix, i) {
            return false;
        }
        i += 1;
    }
    proof {
        assert(bs@.take(prefix@.len() as int) =~= prefix@);
    }
    true
}

/// Whether the byte slice ends with the given suffix.
fn bytes_has_suffix(bs: &[u8], suffix: &[u8]) -> (r: bool)
    ensures
        r <==> bs@.len() >= suffix@.len() && bs@.skip(bs@.len() - suffix@.len()) =~= suffix@,
{
    let n = bs.len();
    if n < suffix.len() {
        return false;
    }
    let start = n - suffix.len();
    let mut i: usize = 0;
    while i < suffix.len()
        invariant
            n == bs@.len(),
            bs@.len() >= suffix@.len(),
            start == bs@.len() - suffix@.len(),
            0 <= i <= suffix@.len(),
            forall|j: int| 0 <= j < i ==> bs@[start + j] == suffix@[j],
        decreases suffix@.len() - i,
    {
        if *vstd::slice::slice_index_get(bs, start + i) != *vstd::slice::slice_index_get(
            suffix,
            i,
        ) {
            return false;
        }
        i += 1;
    }
    proof {
        assert(bs@.skip(bs@.len() - suffix@.len()) =~= suffix@);
    }
    true
}

/// Builds the engine identity `dri-<code(name)>` of the container for a name.
///
/// The identity parses back to exactly this name.
pub fn encode_container_name(name: &str) -> (r: String)
    requires
        name.spec_bytes().len() <= MAX_NAME_BYTES,
    ensures
        r@ == container_ref_chars(name@),
        encode_utf8(r@) == container_prefix_bytes() + encode_bytes(name.spec_bytes()),
        parse_container_spec(encode_utf8(r@)) == Some(name@),
{
    let mut s = String::from_str("dri-");
    match encode(name) {
        Ok(code) => {
            s.append(code.as_str());
            proof {
                lemma_container_prefix();
                let nbs = name.spec_bytes();
                crate::codec::lemma_code_round_trip(nbs);
                crate::codec::lemma_code_chars_bytes(encode_bytes(nbs));
                lemma_ascii_concat_bytes("dri-"@, code_chars(encode_bytes(nbs)));
                vstd::utf8::encode_utf8_valid_utf8(name@);
                vstd::utf8::encode_utf8_decode_utf8(name@);
                assert(crate::codec::decode_raw(encode_bytes(nbs)) =~= nbs);
                let full = encode_utf8(s@);
                assert(full.take(4) =~= container_prefix_bytes());
                assert(full.skip(4) =~= encode_bytes(nbs));
                assert(decode_ok(encode_bytes(nbs)));
                assert(decoded_name(encode_bytes(nbs)) == name@);
            }
            s
        },
        Err(_) => {
            proof {
                assert(false);
            }
            s
        },
    }
}

/// Reads a container's engine identity back into its display name.
///
/// Returns `None` for every identity outside this tool's namespace: a missing
/// `dri-` prefix, or a code that does not decode.
pub fn parse_container_name(name: &str) -> (r: Option<String>)
    ensures
        r is Some <==> parse_container_spec(name.spec_bytes()) is Some,
        r is Some ==> Some(r->Some_0@) == parse_container_spec(name.spec_bytes()),
{
    let bs = name.as_bytes();
    let prefix = "dri-".as_bytes();
    proof {
        lemma_container_prefix();
    }
    if !bytes_has_prefix(bs, prefix) {
        return None;
    }
    let code = vstd::slice::slice_subrange(bs, 4, bs.len());
    proof {
        assert(code@ =~= name.spec_bytes().skip(4));
    }
    match decode_bytes(code) {
        Ok(s) => Some(s),
        Err(_) => None,
    }
}

/// Builds the engine identity `localhost/dri/<code(name)>:latest` of the
/// image for a name.
///
/// The identity parses back to exactly this name.
pub fn encode_image_name(name: &str) -> (r: String)
    requires
        name.spec_bytes().len() <= MAX_NAME_BYTES,
    ensures
        r@ == image_ref_chars(name@),
        encode_utf8(r@) == image_prefix_bytes() + encode_bytes(name.spec_bytes())
            + image_suffix_bytes(),
        parse_image_spec(encode_utf8(r@)) == Some(name@),
{
    let mut s = String::from_str("localhost/dri/");
    match encode(name) {
        Ok(code) => {
            s.append(code.as_str());
            s.append(":latest");
            proof {
                lemma_image_affixes();
                let nbs = name.spec_bytes();
                crate::codec::lemma_code_round_trip(nbs);
                crate::codec::lemma_code_chars_bytes(encode_bytes(nbs));
                let code_cs = code_chars(encode_bytes(nbs));
                assert(s@ =~= image_ref_chars(name@));
                lemma_ascii_concat_bytes("localhost/dri/"@, code_cs);
                lemma_ascii_concat_bytes("localhost/dri/"@ + code_cs, ":latest"@);
                assert(("localhost/dri/"@ + code_cs) + ":latest"@ =~= image_ref_chars(name@));
                vstd::utf8::encode_utf8_valid_utf8(name@);
                vstd::utf8::encode_utf8_decode_utf8(name@);
                let cb = encode_bytes(nbs);
                assert(crate::codec::decode_raw(cb) =~= nbs);
                let full = encode_utf8(s@);
                assert(full =~= image_prefix_bytes() + cb + image_suffix_bytes());
                assert(full.len() == 21 + cb.len());
                assert(full.take(14) =~= image_prefix_bytes());
                assert(full.skip(full.len() - 7) =~= image_suffix_bytes());
                assert(full.subrange(14, full.len() - 7) =~= cb);
                assert(decode_ok(cb));
                assert(decoded_name(cb) == name@);
            }
            s
        },
        Err(_) => {
            proof {
                assert(false);
            }
            s
        },
    }
}

/// Reads an image's engine identity back into its display name.
///
/// Returns `None` for every identity outside this tool's namespace: a missing
/// `localhost/dri/` prefix or `:latest` suffix, or a code that does not
/// decode.
pub fn parse_image_name(name: &str) -> (r: Option<String>)
    ensures
        r is Some <==> parse_image_spec(name.spec_bytes()) is Some,
        r is Some ==> Some(r->Some_0@) == parse_image_spec(name.spec_bytes()),
{
    let bs = name.as_bytes();
    proof {
        lemma_image_affixes();
    }
    if !bytes_has_prefix(bs, "localhost/dri/".as_bytes()) {
        return None;
    }
    if !bytes_has_suffix(bs, ":latest".as_bytes()) {
        return None;
    }
    if bs.len() < 21 {
        return None;
    }
    let code = vstd::slice::slice_subrange(bs, 14, bs.len() - 7);
    proof {
        assert(code@ =~= name.spec_bytes().subrange(14, name.spec_bytes().len() - 7));
    }
    match decode_bytes(code) {
        Ok(s) => Some(s),
        Err(_) => None,
    }
}

/// The decimal digit characters of a number, most significant first.
pub open spec fn dec_chars(n: nat) -> Seq<char>
    decreases n,
{
    if n < 10 {
        seq![digit_char(n)]
    } else {
        dec_chars(n / 10).push(digit_char(n % 10))
    }
}

/// The character of one decimal digit.
pub open spec fn digit_char(d: nat) -> char
    recommends
        d < 10,
{
    if d == 0 {
        '0'
    } else if d == 1 {
        '1'
    } else if d == 2 {
        '2'
    } else if d == 3 {
        '3'
    } else if d == 4 {
        '4'
    } else if d == 5 {
        '5'
    } else if d == 6 {
        '6'
    } else if d == 7 {
        '7'
    } else if d == 8 {
        '8'
    } else {
        '9'
    }
}

/// The single-character string of one decimal digit.
fn digit_str(d: u16) -> (s: &'static str)
    requires
        d < 10,
    ensures
        s@ == seq![digit_char(d as nat)],
{
    if d == 0 {
        proof {
            reveal_strlit("0");
            assert("0"@ =~= seq![digit_char(d as nat)]);
        }
        "0"
    } else if d == 1 {
        proof {
            reveal_strlit("1");
            assert("1"@ =~= seq![digit_char(d as nat)]);
        }
        "1"
    } else if d == 2 {
        proof {
            reveal_strlit("2");
            assert("2"@ =~= seq![digit_char(d as nat)]);
        }
        "2"
    } else if d == 3 {
        proof {
            reveal_strlit("3");
            assert("3"@ =~= seq![digit_char(d as nat)]);
        }
        "3"
    } else if d == 4 {
        proof {
            reveal_strlit("4");
            assert("4"@ =~= seq![digit_char(d as nat)]);
        }
        "4"
    } else if d == 5 {
        proof {
            reveal_strlit("5");
            assert("5"@ =~= seq![digit_char(d as nat)]);
        }
        "5"
    } else if d == 6 {
        proof {
            reveal_strlit("6");
            assert("6"@ =~= seq![digit_char(d as nat)]);
        }
        "6"
    } else if d == 7 {
        proof {
            reveal_strlit("7");
            assert("7"@ =~= seq![digit_char(d as nat)]);
        }
        "7"
    } else if d == 8 {
        proof {
            reveal_strlit("8");
            assert("8"@ =~= seq![digit_char(d as nat)]);
        }
        "8"
    } else {
        proof {
            reveal_strlit("9");
            assert("9"@ =~= seq![digit_char(d as nat)]);
        }
        "9"
    }
}

/// The decimal string of a number.
fn dec_string(n: u16) -> (r: String)
    ensures
        r@ == dec_chars(n as nat),
    decreases n,
{
    if n < 10 {
        String::from_str(digit_str(n))
    } else {
        let mut s = dec_string(n / 10);
        s.append(digit_str(n % 10));
        proof {
            assert(s@ =~= dec_chars(n as nat));
        }
        s
    }
}

/// The engine publish argument for a host port: `127.0.0.1:<port>:22`.
pub open spec fn publish_arg_chars(port: u16) -> Seq<char> {
    "127.0.0.1:"@ + dec_chars(port as nat) + ":22"@
}

/// Builds the engine publish argument binding a host port on loopback to the
/// container's SSH port.
pub fn encode_port(port: u16) -> (r: String)
    ensures
        r@ == publish_arg_chars(port),
{
    let mut s = String::from_str("127.0.0.1:");
    let digits = dec_string(port);
    s.append(digits.as_str());
    s.append(":22");
    proof {
        assert(s@ =~= publish_arg_chars(port));
    }
    s
}

} // verus!
