//! FOURCC codes: the four-character pixel-format tags that the camera driver
//! reports as a 32-bit number, first character in the lowest byte; and the
//! choice of camera device.
use vstd::prelude::*;
use crate::text::{push_char, string_from, to_chars};
use crate::decimal::{parse_i32, spec_parse_i32};
use crate::consts::DEFAULT_CAMERA_INDEX;
use vstd::string::StringSliceAdditionalSpecFns;
use vstd::arithmetic::div_mod::lemma_fundamental_div_mod_converse;

verus! {

/// The camera index named by `ROOF_CAMERA_INDEX`'s value: the value read as
/// an `i32`, else the default index.
pub open spec fn camera_index(value: Option<Seq<char>>) -> i32 {
    match value {
        Some(v) => match spec_parse_i32(v) {
            Some(i) => i,
            None => DEFAULT_CAMERA_INDEX,
        },
        None => DEFAULT_CAMERA_INDEX,
    }
}

/// The camera to open, given the value of `ROOF_CAMERA_INDEX` if it is set.
pub fn camera_index_from(value: Option<&str>) -> (r: i32)
    ensures
        r == camera_index(value.deep_view()),
{
    match value {
        Some(v) => {
            let cv = to_chars(v);
            match parse_i32(cv.as_slice()) {
                Some(i) => i,
                None => DEFAULT_CAMERA_INDEX,
            }
        },
        None => DEFAULT_CAMERA_INDEX,
    }
}

/// The 32-bit code of four bytes, the first in the lowest byte.
pub open spec fn fourcc_value(b: Seq<u8>) -> int {
    b[0] as int + 256 * (b[1] as int) + 65536 * (b[2] as int) + 16777216 * (b[3] as int)
}

/// The code of a four-byte tag (as a two's-complement `i32`), else 0.
pub open spec fn fourcc_code(bytes: Seq<u8>) -> i32 {
    if bytes.len() != 4 {
        0
    } else {
        fourcc_value(bytes) as i32
    }
}

/// The FOURCC code of a tag given as text; 0 unless its UTF-8 form is four bytes.
pub fn fourcc_from_str(code: &str) -> (r: i32)
    ensures
        r == fourcc_code(code.spec_bytes()),
{
    let bytes = code.as_bytes();
    if bytes.len() != 4 {
        return 0;
    }
    let v: u32 = bytes[0] as u32 + 256 * (bytes[1] as u32) + 65536 * (bytes[2] as u32) + 16777216
        * (bytes[3] as u32);
    v as i32
}

/// The byte of `code` at position `i` (0 is the lowest).
pub open spec fn code_byte(code: u32, i: int) -> int {
    if i == 0 {
        code as int % 256
    } else if i == 1 {
        (code as int / 256) % 256
    } else if i == 2 {
        (code as int / 65536) % 256
    } else {
        code as int / 16777216
    }
}

/// A visible ASCII character or a space.
pub open spec fn is_tag_byte(b: int) -> bool {
    0x20 <= b <= 0x7e
}

pub open spec fn hex_digit(d: int) -> char {
    if d < 10 {
        ('0' as int + d) as char
    } else {
        ('A' as int + (d - 10)) as char
    }
}

/// `code` as eight upper-case hexadecimal digits, most significant first.
pub open spec fn hex8(code: u32) -> Seq<char> {
    Seq::new(8, |i: int| hex_digit((code as int / pow16(7 - i)) % 16))
}

pub open spec fn pow16(k: int) -> int
    decreases k,
{
    if k <= 0 {
        1
    } else {
        16 * pow16(k - 1)
    }
}

/// How a FOURCC code is shown: its four characters when they are all visible
/// ASCII or spaces, else `0x` and eight upper-case hex digits.
pub open spec fn fourcc_text(code: u32) -> Seq<char> {
    if forall|i: int| 0 <= i < 4 ==> is_tag_byte(#[trigger] code_byte(code, i)) {
        Seq::new(4, |i: int| code_byte(code, i) as char)
    } else {
        "0x"@ + hex8(code)
    }
}

fn hex_char(d: u32) -> (c: char)
    requires
        d < 16,
    ensures
        c == hex_digit(d as int),
{
    match d {
        0 => '0',
        1 => '1',
        2 => '2',
        3 => '3',
        4 => '4',
        5 => '5',
        6 => '6',
        7 => '7',
        8 => '8',
        9 => '9',
        10 => 'A',
        11 => 'B',
        12 => 'C',
        13 => 'D',
        14 => 'E',
        _ => 'F',
    }
}

/// The text of a FOURCC code (the code as the driver reports it, rounded to an integer).
pub fn fourcc_code_text(code: u32) -> (r: String)
    ensures
        r@ == fourcc_text(code),
{
    let b0 = code % 256;
    let b1 = (code / 256) % 256;
    let b2 = (code / 65536) % 256;
    let b3 = code / 16777216;
    assert(b0 == code_byte(code, 0) && b1 == code_byte(code, 1) && b2 == code_byte(code, 2) && b3
        == code_byte(code, 3));
    if 0x20 <= b0 && b0 <= 0x7e && 0x20 <= b1 && b1 <= 0x7e && 0x20 <= b2 && b2 <= 0x7e && 0x20
        <= b3 && b3 <= 0x7e {
        let v: Vec<char> = vec![(b0 as u8) as char, (b1 as u8) as char, (b2 as u8) as char, (b3 as u8) as char];
        assert(v@ =~= Seq::new(4, |i: int| code_byte(code, i) as char));
        string_from(v.as_slice())
    } else {
        proof {
            assert(!is_tag_byte(code_byte(code, 0)) || !is_tag_byte(code_byte(code, 1))
                || !is_tag_byte(code_byte(code, 2)) || !is_tag_byte(code_byte(code, 3)));
        }
        let mut out = String::from_str("0x");
        let mut k: u32 = 0;
        let mut div: u32 = 268435456;
        assert(pow16(7) == 268435456) by {
            reveal_with_fuel(pow16, 8);
        }
        while k < 8
            invariant
                k <= 8,
                div as int == pow16(7 - k as int),
                k < 8 ==> div >= 1,
                out@ == "0x"@ + hex8(code).take(k as int),
            decreases 8 - k,
        {
            let d = (code / div) % 16;
            push_char(&mut out, hex_char(d));
            assert(hex8(code).take(k as int + 1) == hex8(code).take(k as int).push(
                hex8(code)[k as int],
            ));
            assert(out@ =~= "0x"@ + hex8(code).take(k as int + 1));
            if k < 7 {
                assert(pow16(7 - k as int) == 16 * pow16(7 - (k as int + 1)));
                div = div / 16;
            }
            k = k + 1;
        }
        assert(hex8(code).take(8) == hex8(code));
        out
    }
}

/// The four bytes of a code built from four bytes.
proof fn lemma_code_bytes(b0: int, b1: int, b2: int, b3: int, v: int)
    requires
        0 <= b0 < 256,
        0 <= b1 < 256,
        0 <= b2 < 256,
        0 <= b3 < 256,
        v == b0 + 256 * b1 + 65536 * b2 + 16777216 * b3,
    ensures
        v % 256 == b0,
        (v / 256) % 256 == b1,
        (v / 65536) % 256 == b2,
        v / 16777216 == b3,
{
    lemma_fundamental_div_mod_converse(v, 256, b1 + 256 * b2 + 65536 * b3, b0);
    lemma_fundamental_div_mod_converse(
        b1 + 256 * b2 + 65536 * b3,
        256,
        b2 + 256 * b3,
        b1,
    );
    lemma_fundamental_div_mod_converse(v, 65536, b2 + 256 * b3, b0 + 256 * b1);
    lemma_fundamental_div_mod_converse(b2 + 256 * b3, 256, b3, b2);
    lemma_fundamental_div_mod_converse(v, 16777216, b3, b0 + 256 * b1 + 65536 * b2);
}

/// The code of a four-character tag of visible ASCII characters (or spaces)
/// is shown as that same tag.
pub proof fn law_fourcc_round_trip(bytes: Seq<u8>)
    requires
        bytes.len() == 4,
        forall|i: int| 0 <= i < 4 ==> is_tag_byte(#[trigger] bytes[i] as int),
    ensures
        fourcc_code(bytes) >= 0,
        fourcc_text(fourcc_code(bytes) as u32) == Seq::new(4, |i: int| bytes[i] as char),
{
    let v = fourcc_value(bytes);
    assert(is_tag_byte(bytes[0] as int) && is_tag_byte(bytes[1] as int) && is_tag_byte(
        bytes[2] as int,
    ) && is_tag_byte(bytes[3] as int));
    lemma_code_bytes(bytes[0] as int, bytes[1] as int, bytes[2] as int, bytes[3] as int, v);
    assert(0 <= v < 0x8000_0000);
    let c = fourcc_code(bytes) as u32;
    assert(c as int == v);
    assert forall|i: int| 0 <= i < 4 implies #[trigger] code_byte(c, i) == bytes[i] as int by {}
    assert(Seq::new(4, |i: int| code_byte(c, i) as char) =~= Seq::new(4, |i: int| bytes[i] as char));
}

} // verus!
