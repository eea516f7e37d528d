//! URL path segments.
//!
//! Category names and logins go into the path, and both are free text. Spliced in as they
//! are, a `/` or a `#` would address a different resource, or none, so every interpolated
//! segment is encoded here rather than at each call site.
use vstd::prelude::*;
use vstd::string::*;

use crate::error::{ClientError, ErrorKind};
use crate::text::{concat, push_char};

verus! {

broadcast use vstd::string::group_string_axioms;

/// The unreserved characters of RFC 3986: letters, digits, `-`, `.`, `_` and `~`.
pub open spec fn unreserved(b: u8) -> bool {
    ||| (65 <= b && b <= 90)
    ||| (97 <= b && b <= 122)
    ||| (48 <= b && b <= 57)
    ||| b == 45
    ||| b == 46
    ||| b == 95
    ||| b == 126
}

/// The upper-case hexadecimal digit for `n < 16`.
pub open spec fn hex_char(n: u8) -> char {
    if n < 10 {
        ((n + 48) as u32) as char
    } else {
        ((n + 55) as u32) as char
    }
}

/// One byte of a path segment: itself when unreserved, `%XX` otherwise.
pub open spec fn encode_byte(b: u8) -> Seq<char> {
    if unreserved(b) {
        seq![(b as u32) as char]
    } else {
        seq!['%', hex_char(b / 16), hex_char(b % 16)]
    }
}

/// The percent-encoding of `bytes`, byte by byte.
pub open spec fn encode_bytes(bytes: Seq<u8>) -> Seq<char>
    decreases bytes.len(),
{
    if bytes.len() == 0 {
        Seq::empty()
    } else {
        encode_bytes(bytes.drop_last()) + encode_byte(bytes.last())
    }
}

/// The values no encoding keeps in place: URL parsing removes `.` and `..` segments, and an
/// empty one collapses into `//`.
pub open spec fn unusable_segment(s: Seq<char>) -> bool {
    s == ""@ || s == "."@ || s == ".."@
}

/// The value of a hexadecimal digit, in either case.
pub open spec fn hex_value(c: char) -> int {
    if '0' <= c && c <= '9' {
        c as int - 48
    } else if 'A' <= c && c <= 'F' {
        c as int - 55
    } else if 'a' <= c && c <= 'f' {
        c as int - 87
    } else {
        0
    }
}

/// Percent-decoding of a path segment, read from the front: `%XX` is the byte `XX`, any
/// other character the byte of its code.
pub open spec fn decode_segment(s: Seq<char>) -> Seq<u8>
    decreases s.len(),
{
    if s.len() == 0 {
        Seq::empty()
    } else if s[0] == '%' && s.len() >= 3 {
        seq![(hex_value(s[1]) * 16 + hex_value(s[2])) as u8] + decode_segment(s.skip(3))
    } else {
        seq![(s[0] as u32) as u8] + decode_segment(s.skip(1))
    }
}

proof fn lemma_encode_bytes_append(x: Seq<u8>, y: Seq<u8>)
    ensures
        encode_bytes(x + y) == encode_bytes(x) + encode_bytes(y),
    decreases y.len(),
{
    if y.len() == 0 {
        assert(x + y =~= x);
        assert(encode_bytes(x) + encode_bytes(y) =~= encode_bytes(x));
    } else {
        assert((x + y).drop_last() =~= x + y.drop_last());
        assert((x + y).last() == y.last());
        lemma_encode_bytes_append(x, y.drop_last());
        assert(encode_bytes(x) + encode_bytes(y.drop_last()) + encode_byte(y.last())
            =~= encode_bytes(x) + (encode_bytes(y.drop_last()) + encode_byte(y.last())));
    }
}

proof fn lemma_hex_round_trip(b: u8)
    ensures
        hex_value(hex_char(b / 16)) * 16 + hex_value(hex_char(b % 16)) == b,
        hex_char(b / 16) != '%',
{
}

proof fn lemma_encode_byte_chars(b: u8)
    ensures
        forall|i: int|
            0 <= i < encode_byte(b).len() ==> {
                let c = #[trigger] encode_byte(b)[i];
                &&& c != '/'
                &&& c != '?'
                &&& c != '#'
            },
{
}

/// An encoded segment is one segment: no `/`, `?` or `#` survives the encoding, so a name
/// cannot add a path segment or cut the path short with a query or a fragment.
pub proof fn lemma_encoding_stays_one_segment(bytes: Seq<u8>)
    ensures
        forall|i: int|
            0 <= i < encode_bytes(bytes).len() ==> {
                let c = #[trigger] encode_bytes(bytes)[i];
                &&& c != '/'
                &&& c != '?'
                &&& c != '#'
            },
    decreases bytes.len(),
{
    if bytes.len() > 0 {
        lemma_encoding_stays_one_segment(bytes.drop_last());
        lemma_encode_byte_chars(bytes.last());
        let e = encode_bytes(bytes);
        let head = encode_bytes(bytes.drop_last());
        assert forall|i: int| 0 <= i < e.len() implies {
            let c = #[trigger] e[i];
            &&& c != '/'
            &&& c != '?'
            &&& c != '#'
        } by {
            if i < head.len() {
                assert(e[i] == head[i]);
            } else {
                assert(e[i] == encode_byte(bytes.last())[i - head.len()]);
            }
        }
    }
}

/// Over-encoding is always safe to decode: percent-decoding an encoded segment gives back
/// exactly the bytes that were encoded.
pub proof fn lemma_encoding_decodes_back(bytes: Seq<u8>)
    ensures
        decode_segment(encode_bytes(bytes)) == bytes,
    decreases bytes.len(),
{
    if bytes.len() > 0 {
        let b = bytes[0];
        let rest = bytes.skip(1);
        assert(bytes =~= seq![b] + rest);
        lemma_encode_bytes_append(seq![b], rest);
        assert(seq![b].drop_last() =~= Seq::<u8>::empty());
        assert(seq![b].last() == b);
        assert(encode_bytes(Seq::<u8>::empty()) =~= Seq::<char>::empty());
        assert(encode_bytes(seq![b]) =~= encode_byte(b));
        let e = encode_byte(b) + encode_bytes(rest);
        lemma_encoding_decodes_back(rest);
        if unreserved(b) {
            assert(e[0] == (b as u32) as char);
            assert(e.skip(1) =~= encode_bytes(rest));
        } else {
            lemma_hex_round_trip(b);
            assert(e[0] == '%');
            assert(e.skip(3) =~= encode_bytes(rest));
        }
        assert(decode_segment(e) =~= seq![b] + rest);
    }
}

/// Whether `c` is an unreserved character of RFC 3986.
pub open spec fn unreserved_char(c: char) -> bool {
    ||| ('A' <= c && c <= 'Z')
    ||| ('a' <= c && c <= 'z')
    ||| ('0' <= c && c <= '9')
    ||| c == '-'
    ||| c == '.'
    ||| c == '_'
    ||| c == '~'
}

/// Whether `c` is a digit of upper-case hexadecimal.
pub open spec fn upper_hex_digit(c: char) -> bool {
    ('0' <= c && c <= '9') || ('A' <= c && c <= 'F')
}

/// Whether `s`, read from the front, is nothing but unreserved characters and `%XX` escapes.
pub open spec fn unreserved_or_escaped(s: Seq<char>) -> bool
    decreases s.len(),
{
    if s.len() == 0 {
        true
    } else if unreserved_char(s[0]) {
        unreserved_or_escaped(s.skip(1))
    } else {
        &&& s.len() >= 3
        &&& s[0] == '%'
        &&& upper_hex_digit(s[1])
        &&& upper_hex_digit(s[2])
        &&& unreserved_or_escaped(s.skip(3))
    }
}

/// Everything but the unreserved characters is encoded: an encoded segment is made of
/// unreserved characters and `%XX` escapes, and nothing else.
pub proof fn lemma_encoding_is_unreserved_or_escaped(bytes: Seq<u8>)
    ensures
        unreserved_or_escaped(encode_bytes(bytes)),
    decreases bytes.len(),
{
    if bytes.len() > 0 {
        let b = bytes[0];
        let rest = bytes.skip(1);
        assert(bytes =~= seq![b] + rest);
        lemma_encode_bytes_append(seq![b], rest);
        assert(seq![b].drop_last() =~= Seq::<u8>::empty());
        assert(seq![b].last() == b);
        assert(encode_bytes(Seq::<u8>::empty()) =~= Seq::<char>::empty());
        assert(encode_bytes(seq![b]) =~= encode_byte(b));
        let e = encode_byte(b) + encode_bytes(rest);
        lemma_encoding_is_unreserved_or_escaped(rest);
        if unreserved(b) {
            assert(e[0] == (b as u32) as char);
            assert(unreserved_char(e[0]));
            assert(e.skip(1) =~= encode_bytes(rest));
        } else {
            assert(!unreserved_char('%'));
            assert(e[0] == '%');
            assert(upper_hex_digit(e[1]) && upper_hex_digit(e[2]));
            assert(e.skip(3) =~= encode_bytes(rest));
        }
    }
}

fn hex(n: u8) -> (c: char)
    requires
        n < 16,
    ensures
        c == hex_char(n),
{
    let table = [
        '0', '1', '2', '3', '4', '5', '6', '7', '8', '9', 'A', 'B', 'C', 'D', 'E', 'F',
    ];
    let c = table[n as usize];
    assert(c == hex_char(n)) by {
        assert(table@[n as int] == c);
    }
    c
}

fn ascii_char(b: u8) -> (c: char)
    requires
        b < 128,
    ensures
        c == (b as u32) as char,
{
    b as char
}

/// What [`segment`] makes of `value`: its encoding, or the refusal of a value no encoding
/// keeps in place.
pub open spec fn segment_outcome(value: &str) -> Result<Seq<char>, (ErrorKind, Seq<char>)> {
    if unusable_segment(value@) {
        Err((ErrorKind::BadRequest, "\""@ + value@ + "\" cannot be used as a name"@))
    } else {
        Ok(encode_bytes(value.spec_bytes()))
    }
}

/// Encodes one path segment, refusing the values no encoding can keep in place.
///
/// Everything but the unreserved characters of RFC 3986 is percent-encoded, byte by byte
/// of its UTF-8 form.
pub fn segment(value: &str) -> (r: Result<String, ClientError>)
    ensures
        unusable_segment(value@) ==> (r matches Err(e) && e@ == (
            ErrorKind::BadRequest,
            "\""@ + value@ + "\" cannot be used as a name"@,
        )),
        !unusable_segment(value@) ==> (r matches Ok(s) && s@ == encode_bytes(value.spec_bytes())),
        r matches Ok(s) ==> unreserved_or_escaped(s@) && decode_segment(s@) == value.spec_bytes(),
        match segment_outcome(value) {
            Ok(s) => r matches Ok(x) && x@ == s,
            Err(e) => r matches Err(x) && x@ == e,
        },
{
    proof {
        reveal_strlit("");
        reveal_strlit(".");
        reveal_strlit("..");
        lemma_encoding_is_unreserved_or_escaped(value.spec_bytes());
        lemma_encoding_decodes_back(value.spec_bytes());
    }
    let n = value.unicode_len();
    let unusable = n == 0 || (n <= 2 && value.get_char(0) == '.' && (n == 1 || value.get_char(1)
        == '.'));
    proof {
        if n == 1 && value@[0] == '.' {
            assert(value@ =~= "."@);
        }
        if n == 2 && value@[0] == '.' && value@[1] == '.' {
            assert(value@ =~= ".."@);
        }
        if n == 0 {
            assert(value@ =~= ""@);
        }
    }
    if unusable {
        let quoted = concat("\"", value);
        return Err(ClientError::BadRequest(concat(quoted.as_str(), "\" cannot be used as a name")));
    }
    let bytes = value.as_bytes();
    let mut out = String::new();
    let mut i: usize = 0;
    while i < bytes.len()
        invariant
            i <= bytes@.len(),
            bytes@ == value.spec_bytes(),
            out@ == encode_bytes(bytes@.take(i as int)),
        decreases bytes.len() - i,
    {
        let b = bytes[i];
        let plain = (65 <= b && b <= 90) || (97 <= b && b <= 122) || (48 <= b && b <= 57) || b == 45
            || b == 46 || b == 95 || b == 126;
        if plain {
            push_char(&mut out, ascii_char(b));
        } else {
            push_char(&mut out, '%');
            push_char(&mut out, hex(b / 16));
            push_char(&mut out, hex(b % 16));
        }
        proof {
            assert(bytes@.take(i + 1).drop_last() =~= bytes@.take(i as int));
            assert(out@ =~= encode_bytes(bytes@.take(i as int)) + encode_byte(b));
        }
        i = i + 1;
    }
    assert(bytes@.take(i as int) =~= bytes@);
    Ok(out)
}

} // verus!
