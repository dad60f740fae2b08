use vstd::prelude::*;
use vstd::string::StrSliceExecFns;
use crate::error::BluetoothError;

verus! {

/// Whether `c` is an ASCII hexadecimal digit (case-insensitive).
pub open spec fn is_hex_digit(c: char) -> bool {
    ('0' <= c && c <= '9') || ('a' <= c && c <= 'f') || ('A' <= c && c <= 'F')
}

/// Numeric value of an ASCII hexadecimal digit.
pub open spec fn hex_digit_value(c: char) -> u8 {
    if '0' <= c && c <= '9' {
        ((c as u8) - ('0' as u8)) as u8
    } else if 'a' <= c && c <= 'f' {
        ((c as u8) - ('a' as u8) + 10) as u8
    } else {
        ((c as u8) - ('A' as u8) + 10) as u8
    }
}

/// The byte encoded by two hexadecimal digits, high digit first.
pub open spec fn spec_hex_byte(hi: char, lo: char) -> u8 {
    (hex_digit_value(hi) * 16 + hex_digit_value(lo)) as u8
}

/// The bytes encoded by a sequence of hexadecimal digits, two digits per
/// byte.
pub open spec fn spec_hex_decode(s: Seq<char>) -> Seq<u8>
    decreases s.len(),
{
    if s.len() < 2 {
        Seq::empty()
    } else {
        seq![spec_hex_byte(s[0], s[1])] + spec_hex_decode(s.skip(2))
    }
}

#[verifier::external_type_specification]
#[verifier::external_body]
pub struct ExFromHexError(hex::FromHexError);

/// Relies on hex::decode of the hex crate: it succeeds exactly on an
/// even-length string of hexadecimal digits (either case) and then returns
/// one byte per digit pair, high digit first; any other input is refused
/// with a `FromHexError`.
#[verifier::external_body]
fn hex_decode(s: &str) -> (r: Result<Vec<u8>, hex::FromHexError>)
    ensures
        (r is Ok) == (s@.len() % 2 == 0 && forall|i: int|
            0 <= i < s@.len() ==> #[trigger] is_hex_digit(s@[i])),
        r matches Ok(v) ==> v@ == spec_hex_decode(s@),
{
    hex::decode(s)
}

/// Index of the first colon in `s`, or `s.len()` when there is none.
pub open spec fn first_colon(s: Seq<char>) -> int
    decreases s.len(),
{
    if s.len() == 0 {
        0
    } else if s[0] == ':' {
        0
    } else {
        1 + first_colon(s.drop_first())
    }
}

proof fn lemma_first_colon(s: Seq<char>)
    ensures
        0 <= first_colon(s) <= s.len(),
        forall|j: int| 0 <= j < first_colon(s) ==> s[j] != ':',
        first_colon(s) < s.len() ==> s[first_colon(s)] == ':',
    decreases s.len(),
{
    if s.len() == 0 {
    } else if s[0] == ':' {
    } else {
        lemma_first_colon(s.drop_first());
        assert forall|j: int| 0 <= j < first_colon(s) implies s[j] != ':' by {
            if j >= 1 {
                assert(s[j] == s.drop_first()[j - 1]);
            }
        }
    }
}

/// Pins `first_colon` down from what a forward scan establishes.
proof fn lemma_first_colon_is(s: Seq<char>, c: int)
    requires
        0 <= c <= s.len(),
        forall|j: int| 0 <= j < c ==> s[j] != ':',
        c < s.len() ==> s[c] == ':',
    ensures
        first_colon(s) == c,
{
    lemma_first_colon(s);
}

/// Whether the four characters starting at `off` are hexadecimal digits.
pub open spec fn field_is_hex(rest: Seq<char>, off: int) -> bool {
    is_hex_digit(rest[off]) && is_hex_digit(rest[off + 1]) && is_hex_digit(rest[off + 2])
        && is_hex_digit(rest[off + 3])
}

/// The 16-bit identifier encoded by the four hexadecimal digits starting
/// at `off`: each digit pair is one byte, and the field is the high byte
/// times 256 plus the low byte (big-endian reconstruction from exactly two
/// encoded bytes).
pub open spec fn field_value(rest: Seq<char>, off: int) -> u32 {
    ((spec_hex_byte(rest[off], rest[off + 1]) as u32) * 256 + (spec_hex_byte(
        rest[off + 2],
        rest[off + 3],
    ) as u32)) as u32
}

/// The modalias format `<source>:v####p####d####`: the source tag stands
/// before the first colon; the segment between the first colon and the
/// next colon (or the end) must offer at least 15 characters, with the
/// vendor, product and device fields as four hexadecimal digits each at
/// segment offsets 1, 6 and 11. The prefix letters at offsets 0, 5 and 10
/// are not inspected. Any shape violation parses to nothing.
pub open spec fn spec_parse(s: Seq<char>) -> Option<(Seq<char>, u32, u32, u32)> {
    let c = first_colon(s);
    if c == s.len() {
        None
    } else {
        let rest = s.skip(c + 1);
        let seg = first_colon(rest);
        if seg < 15 {
            None
        } else if !(field_is_hex(rest, 1) && field_is_hex(rest, 6) && field_is_hex(rest, 11)) {
            None
        } else {
            Some((s.take(c), field_value(rest, 1), field_value(rest, 6), field_value(rest, 11)))
        }
    }
}

proof fn lemma_hex_decode_two_bytes(s: Seq<char>)
    requires
        s.len() == 4,
    ensures
        spec_hex_decode(s).len() == 2,
        spec_hex_decode(s)[0] == spec_hex_byte(s[0], s[1]),
        spec_hex_decode(s)[1] == spec_hex_byte(s[2], s[3]),
{
    let s2 = s.skip(2);
    let s4 = s2.skip(2);
    assert(s4.len() == 0);
    assert(spec_hex_decode(s4) =~= Seq::<u8>::empty());
    assert(spec_hex_decode(s2) =~= seq![spec_hex_byte(s2[0], s2[1])]);
    assert(s2[0] == s[2] && s2[1] == s[3]);
    assert(spec_hex_decode(s) =~= seq![spec_hex_byte(s[0], s[1])] + spec_hex_decode(s2));
}

/// Decodes one four-digit field of the segment that starts at character
/// `start` of `modalias`, reconstructing the identifier from its two
/// encoded bytes.
fn parse_field(modalias: &str, start: usize) -> (r: Result<u32, BluetoothError>)
    requires
        start + 4 <= modalias@.len(),
        modalias@.len() <= usize::MAX,
    ensures
        match r {
            Ok(value) => field_is_hex(modalias@, start as int) && value == field_value(
                modalias@,
                start as int,
            ),
            Err(e) => e == BluetoothError::MalformedModalias && !field_is_hex(
                modalias@,
                start as int,
            ),
        },
{
    let digits = modalias.substring_char(start, start + 4);
    proof {
        assert forall|i: int| 0 <= i < 4 implies digits@[i] == modalias@[start + i] by {
            assert(digits@[i] == modalias@.subrange(start as int, start as int + 4)[i]);
        }
    }
    match hex_decode(digits) {
        Ok(bytes) => {
            proof {
                lemma_hex_decode_two_bytes(digits@);
                assert(is_hex_digit(digits@[0]) && is_hex_digit(digits@[1]) && is_hex_digit(
                    digits@[2],
                ) && is_hex_digit(digits@[3]));
            }
            let high = bytes[0];
            let low = bytes[1];
            Ok((high as u32) * 256 + (low as u32))
        },
        Err(_) => {
            proof {
                assert(!(digits@.len() % 2 == 0 && forall|i: int|
                    0 <= i < digits@.len() ==> #[trigger] is_hex_digit(digits@[i])));
                assert(digits@.len() == 4);
            }
            Err(BluetoothError::MalformedModalias)
        },
    }
}

/// Parses a compound modalias identifier string into its source tag and
/// the vendor, product and device identifiers, exactly as `spec_parse`
/// lays the format down. The result is recomputed from the string alone on
/// every call, so equal strings always parse to equal results.
pub fn parse(modalias: &str) -> (r: Result<(String, u32, u32, u32), BluetoothError>)
    ensures
        match spec_parse(modalias@) {
            Some(t) => r matches Ok(p) && p.0@ == t.0 && p.1 == t.1 && p.2 == t.2 && p.3 == t.3,
            None => r == Err::<(String, u32, u32, u32), BluetoothError>(
                BluetoothError::MalformedModalias,
            ),
        },
{
    let ghost s = modalias@;
    let len = modalias.unicode_len();
    let mut c: usize = 0;
    while c < len && modalias.get_char(c) != ':'
        invariant
            len == s.len(),
            s == modalias@,
            c <= len,
            forall|j: int| 0 <= j < c ==> s[j] != ':',
        decreases len - c,
    {
        c += 1;
    }
    proof {
        lemma_first_colon_is(s, c as int);
    }
    if c == len {
        return Err(BluetoothError::MalformedModalias);
    }
    let ghost rest = s.skip(c as int + 1);
    let mut e: usize = c + 1;
    while e < len && modalias.get_char(e) != ':'
        invariant
            len == s.len(),
            s == modalias@,
            c < len,
            c + 1 <= e <= len,
            forall|j: int| c < j < e ==> s[j] != ':',
        decreases len - e,
    {
        e += 1;
    }
    proof {
        assert forall|j: int| 0 <= j < e as int - c as int - 1 implies rest[j] != ':' by {
            assert(rest[j] == s[c as int + 1 + j]);
        }
        if e < len {
            assert(rest[e as int - c as int - 1] == s[e as int]);
        }
        lemma_first_colon_is(rest, e as int - c as int - 1);
    }
    if e - c - 1 < 15 {
        return Err(BluetoothError::MalformedModalias);
    }
    proof {
        assert(forall|j: int| 0 <= j < 15 ==> rest[j] == s[c + 1 + j]);
    }
    let vendor = parse_field(modalias, c + 2)?;
    let product = parse_field(modalias, c + 7)?;
    let device = parse_field(modalias, c + 12)?;
    let source = modalias.substring_char(0, c).to_owned();
    proof {
        assert(s.take(c as int) =~= s.subrange(0, c as int));
        assert(field_is_hex(rest, 1) && field_value(rest, 1) == vendor);
        assert(field_is_hex(rest, 6) && field_value(rest, 6) == product);
        assert(field_is_hex(rest, 11) && field_value(rest, 11) == device);
    }
    Ok((source, vendor, product, device))
}

} // verus!
