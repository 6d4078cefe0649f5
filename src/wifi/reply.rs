//! The discovery reply of a bridge: text that holds
//! `<a.b.c.d>,<12 upper-case hex digits>,` somewhere, the first such place
//! being the one that counts. The fields `a` to `d` are runs of decimal
//! digits of any script; only ASCII ones make a valid address.
use vstd::prelude::*;
use vstd::string::StrSliceExecFns;

use crate::wifi::address::{octets_value, BridgeAddress, Ipv4Address};

verus! {

/// Why a discovery reply was not accepted.
#[derive(Debug, Clone, Copy, PartialEq, Eq, Structural)]
pub enum ReplyError {
    /// The reply holds no address and identifier in the expected shape.
    Format,
    /// The reply has the expected shape, but its address text is no IPv4
    /// address (a field with a digit that is not ASCII, over 255, with a
    /// leading zero, or of more than three digits).
    Address,
}

/// Whether a code point is a decimal digit of Unicode 16.0 (general category
/// `Nd`): the digits that may make up an address field of a reply.
pub open spec fn in_decimal_ranges(v: u32) -> bool {
        (0x30 <= v && v <= 0x39)
        || (0x660 <= v && v <= 0x669)
        || (0x6F0 <= v && v <= 0x6F9)
        || (0x7C0 <= v && v <= 0x7C9)
        || (0x966 <= v && v <= 0x96F)
        || (0x9E6 <= v && v <= 0x9EF)
        || (0xA66 <= v && v <= 0xA6F)
        || (0xAE6 <= v && v <= 0xAEF)
        || (0xB66 <= v && v <= 0xB6F)
        || (0xBE6 <= v && v <= 0xBEF)
        || (0xC66 <= v && v <= 0xC6F)
        || (0xCE6 <= v && v <= 0xCEF)
        || (0xD66 <= v && v <= 0xD6F)
        || (0xDE6 <= v && v <= 0xDEF)
        || (0xE50 <= v && v <= 0xE59)
        || (0xED0 <= v && v <= 0xED9)
        || (0xF20 <= v && v <= 0xF29)
        || (0x1040 <= v && v <= 0x1049)
        || (0x1090 <= v && v <= 0x1099)
        || (0x17E0 <= v && v <= 0x17E9)
        || (0x1810 <= v && v <= 0x1819)
        || (0x1946 <= v && v <= 0x194F)
        || (0x19D0 <= v && v <= 0x19D9)
        || (0x1A80 <= v && v <= 0x1A89)
        || (0x1A90 <= v && v <= 0x1A99)
        || (0x1B50 <= v && v <= 0x1B59)
        || (0x1BB0 <= v && v <= 0x1BB9)
        || (0x1C40 <= v && v <= 0x1C49)
        || (0x1C50 <= v && v <= 0x1C59)
        || (0xA620 <= v && v <= 0xA629)
        || (0xA8D0 <= v && v <= 0xA8D9)
        || (0xA900 <= v && v <= 0xA909)
        || (0xA9D0 <= v && v <= 0xA9D9)
        || (0xA9F0 <= v && v <= 0xA9F9)
        || (0xAA50 <= v && v <= 0xAA59)
        || (0xABF0 <= v && v <= 0xABF9)
        || (0xFF10 <= v && v <= 0xFF19)
        || (0x104A0 <= v && v <= 0x104A9)
        || (0x10D30 <= v && v <= 0x10D39)
        || (0x10D40 <= v && v <= 0x10D49)
        || (0x11066 <= v && v <= 0x1106F)
        || (0x110F0 <= v && v <= 0x110F9)
        || (0x11136 <= v && v <= 0x1113F)
        || (0x111D0 <= v && v <= 0x111D9)
        || (0x112F0 <= v && v <= 0x112F9)
        || (0x11450 <= v && v <= 0x11459)
        || (0x114D0 <= v && v <= 0x114D9)
        || (0x11650 <= v && v <= 0x11659)
        || (0x116C0 <= v && v <= 0x116C9)
        || (0x116D0 <= v && v <= 0x116E3)
        || (0x11730 <= v && v <= 0x11739)
        || (0x118E0 <= v && v <= 0x118E9)
        || (0x11950 <= v && v <= 0x11959)
        || (0x11BF0 <= v && v <= 0x11BF9)
        || (0x11C50 <= v && v <= 0x11C59)
        || (0x11D50 <= v && v <= 0x11D59)
        || (0x11DA0 <= v && v <= 0x11DA9)
        || (0x11F50 <= v && v <= 0x11F59)
        || (0x16130 <= v && v <= 0x16139)
        || (0x16A60 <= v && v <= 0x16A69)
        || (0x16AC0 <= v && v <= 0x16AC9)
        || (0x16B50 <= v && v <= 0x16B59)
        || (0x16D70 <= v && v <= 0x16D79)
        || (0x1CCF0 <= v && v <= 0x1CCF9)
        || (0x1D7CE <= v && v <= 0x1D7FF)
        || (0x1E140 <= v && v <= 0x1E149)
        || (0x1E2F0 <= v && v <= 0x1E2F9)
        || (0x1E4F0 <= v && v <= 0x1E4F9)
        || (0x1E5F1 <= v && v <= 0x1E5FA)
        || (0x1E950 <= v && v <= 0x1E959)
        || (0x1FBF0 <= v && v <= 0x1FBF9)
}

/// A decimal digit in Unicode's sense, of any script.
pub open spec fn is_digit(c: char) -> bool {
    in_decimal_ranges(c as u32)
}

pub open spec fn is_ascii_digit(c: char) -> bool {
    '0' <= c && c <= '9'
}

/// A character of the identifier token: an ASCII digit or an upper-case `A`
/// to `F`.
pub open spec fn is_id_char(c: char) -> bool {
    is_ascii_digit(c) || ('A' <= c && c <= 'F')
}

/// Where the run of decimal digits that starts at `i` ends.
pub open spec fn run_end(t: Seq<char>, i: int) -> int
    decreases t.len() - i,
{
    if 0 <= i < t.len() && is_digit(t[i]) {
        run_end(t, i + 1)
    } else {
        i
    }
}

/// Where the text goes on after a non-empty run of digits at `i` that is
/// closed by `sep`.
pub open spec fn after_field(t: Seq<char>, i: int, sep: char) -> Option<int> {
    let e = run_end(t, i);
    if i < e && e < t.len() && t[e] == sep {
        Some(e + 1)
    } else {
        None
    }
}

/// For an address `a.b.c.d,` at `s`: the starts of its second, third and
/// fourth fields, and the place of its closing comma.
pub open spec fn address_at(t: Seq<char>, s: int) -> Option<(int, int, int, int)> {
    match after_field(t, s, '.') {
        Some(b) => match after_field(t, b, '.') {
            Some(c) => match after_field(t, c, '.') {
                Some(d) => match after_field(t, d, ',') {
                    Some(e) => Some((b, c, d, e - 1)),
                    None => None,
                },
                None => None,
            },
            None => None,
        },
        None => None,
    }
}

/// Whether a whole reply pattern, address, identifier and both commas, starts
/// at `s`.
pub open spec fn matches_at(t: Seq<char>, s: int) -> bool {
    match address_at(t, s) {
        Some(fields) => {
            let e = fields.3;
            &&& e + 14 <= t.len()
            &&& forall|k: int| e + 1 <= k < e + 13 ==> #[trigger] is_id_char(t[k])
            &&& t[e + 13] == ','
        },
        None => false,
    }
}

/// The first place at or after `i` where the reply pattern starts.
pub open spec fn first_match_from(t: Seq<char>, i: int) -> Option<int>
    decreases t.len() - i,
{
    if 0 <= i < t.len() {
        if matches_at(t, i) {
            Some(i)
        } else {
            first_match_from(t, i + 1)
        }
    } else {
        None
    }
}

pub open spec fn digit_value(c: char) -> int {
    c as u32 - '0' as u32
}

/// The number that a string of decimal digits writes.
pub open spec fn digits_value(f: Seq<char>) -> int
    decreases f.len(),
{
    if f.len() == 0 {
        0
    } else {
        digits_value(f.drop_last()) * 10 + digit_value(f.last())
    }
}

/// One field of a dotted IPv4 address: one to three ASCII digits, no leading
/// zero unless the field is `0` itself, and a value under 256.
pub open spec fn octet(f: Seq<char>) -> Option<u8> {
    if 1 <= f.len() <= 3 && (forall|k: int| 0 <= k < f.len() ==> #[trigger] is_ascii_digit(f[k]))
        && !(f.len() > 1 && f[0] == '0') && digits_value(f) <= 255 {
        Some(digits_value(f) as u8)
    } else {
        None
    }
}

/// What a discovery reply means: the address (as its number) and the
/// identifier token of the first match of the pattern; `Format` where nothing
/// matches, `Address` where the matched address text is no IPv4 address.
pub open spec fn reply_spec(t: Seq<char>) -> Result<(u32, Seq<char>), ReplyError> {
    match first_match_from(t, 0) {
        None => Err(ReplyError::Format),
        Some(s) => {
            let (b, c, d, e) = address_at(t, s)->0;
            match (
                octet(t.subrange(s, b - 1)),
                octet(t.subrange(b, c - 1)),
                octet(t.subrange(c, d - 1)),
                octet(t.subrange(d, e)),
            ) {
                (Some(o1), Some(o2), Some(o3), Some(o4)) => Ok(
                    (octets_value(o1, o2, o3, o4), t.subrange(e + 1, e + 13)),
                ),
                _ => Err(ReplyError::Address),
            }
        },
    }
}

fn is_digit_char(c: char) -> (r: bool)
    ensures
        r == is_digit(c),
{
    let v = c as u32;
    (0x30 <= v && v <= 0x39)
    || (0x660 <= v && v <= 0x669)
    || (0x6F0 <= v && v <= 0x6F9)
    || (0x7C0 <= v && v <= 0x7C9)
    || (0x966 <= v && v <= 0x96F)
    || (0x9E6 <= v && v <= 0x9EF)
    || (0xA66 <= v && v <= 0xA6F)
    || (0xAE6 <= v && v <= 0xAEF)
    || (0xB66 <= v && v <= 0xB6F)
    || (0xBE6 <= v && v <= 0xBEF)
    || (0xC66 <= v && v <= 0xC6F)
    || (0xCE6 <= v && v <= 0xCEF)
    || (0xD66 <= v && v <= 0xD6F)
    || (0xDE6 <= v && v <= 0xDEF)
    || (0xE50 <= v && v <= 0xE59)
    || (0xED0 <= v && v <= 0xED9)
    || (0xF20 <= v && v <= 0xF29)
    || (0x1040 <= v && v <= 0x1049)
    || (0x1090 <= v && v <= 0x1099)
    || (0x17E0 <= v && v <= 0x17E9)
    || (0x1810 <= v && v <= 0x1819)
    || (0x1946 <= v && v <= 0x194F)
    || (0x19D0 <= v && v <= 0x19D9)
    || (0x1A80 <= v && v <= 0x1A89)
    || (0x1A90 <= v && v <= 0x1A99)
    || (0x1B50 <= v && v <= 0x1B59)
    || (0x1BB0 <= v && v <= 0x1BB9)
    || (0x1C40 <= v && v <= 0x1C49)
    || (0x1C50 <= v && v <= 0x1C59)
    || (0xA620 <= v && v <= 0xA629)
    || (0xA8D0 <= v && v <= 0xA8D9)
    || (0xA900 <= v && v <= 0xA909)
    || (0xA9D0 <= v && v <= 0xA9D9)
    || (0xA9F0 <= v && v <= 0xA9F9)
    || (0xAA50 <= v && v <= 0xAA59)
    || (0xABF0 <= v && v <= 0xABF9)
    || (0xFF10 <= v && v <= 0xFF19)
    || (0x104A0 <= v && v <= 0x104A9)
    || (0x10D30 <= v && v <= 0x10D39)
    || (0x10D40 <= v && v <= 0x10D49)
    || (0x11066 <= v && v <= 0x1106F)
    || (0x110F0 <= v && v <= 0x110F9)
    || (0x11136 <= v && v <= 0x1113F)
    || (0x111D0 <= v && v <= 0x111D9)
    || (0x112F0 <= v && v <= 0x112F9)
    || (0x11450 <= v && v <= 0x11459)
    || (0x114D0 <= v && v <= 0x114D9)
    || (0x11650 <= v && v <= 0x11659)
    || (0x116C0 <= v && v <= 0x116C9)
    || (0x116D0 <= v && v <= 0x116E3)
    || (0x11730 <= v && v <= 0x11739)
    || (0x118E0 <= v && v <= 0x118E9)
    || (0x11950 <= v && v <= 0x11959)
    || (0x11BF0 <= v && v <= 0x11BF9)
    || (0x11C50 <= v && v <= 0x11C59)
    || (0x11D50 <= v && v <= 0x11D59)
    || (0x11DA0 <= v && v <= 0x11DA9)
    || (0x11F50 <= v && v <= 0x11F59)
    || (0x16130 <= v && v <= 0x16139)
    || (0x16A60 <= v && v <= 0x16A69)
    || (0x16AC0 <= v && v <= 0x16AC9)
    || (0x16B50 <= v && v <= 0x16B59)
    || (0x16D70 <= v && v <= 0x16D79)
    || (0x1CCF0 <= v && v <= 0x1CCF9)
    || (0x1D7CE <= v && v <= 0x1D7FF)
    || (0x1E140 <= v && v <= 0x1E149)
    || (0x1E2F0 <= v && v <= 0x1E2F9)
    || (0x1E4F0 <= v && v <= 0x1E4F9)
    || (0x1E5F1 <= v && v <= 0x1E5FA)
    || (0x1E950 <= v && v <= 0x1E959)
    || (0x1FBF0 <= v && v <= 0x1FBF9)
}

fn is_ascii_digit_char(c: char) -> (r: bool)
    ensures
        r == is_ascii_digit(c),
{
    '0' <= c && c <= '9'
}

fn chars_of(s: &str) -> (r: Vec<char>)
    ensures
        r@ == s@,
{
    let n = s.unicode_len();
    let mut r: Vec<char> = Vec::new();
    let mut i: usize = 0;
    while i < n
        invariant
            n == s@.len(),
            i <= n,
            r@ == s@.subrange(0, i as int),
        decreases n - i,
    {
        r.push(s.get_char(i));
        i = i + 1;
    }
    assert(r@ =~= s@);
    r
}

fn run_end_of(t: &Vec<char>, i: usize) -> (r: usize)
    requires
        i <= t@.len(),
    ensures
        r as int == run_end(t@, i as int),
        i <= r <= t@.len(),
{
    let mut j: usize = i;
    while j < t.len() && is_digit_char(t[j])
        invariant
            i <= j <= t@.len(),
            run_end(t@, j as int) == run_end(t@, i as int),
        decreases t@.len() - j,
    {
        j = j + 1;
    }
    j
}

fn after_field_of(t: &Vec<char>, i: usize, sep: char) -> (r: Option<usize>)
    requires
        i <= t@.len(),
    ensures
        match r {
            Some(x) => after_field(t@, i as int, sep) == Some(x as int) && x <= t@.len(),
            None => after_field(t@, i as int, sep) is None,
        },
{
    let e = run_end_of(t, i);
    if i < e && e < t.len() && t[e] == sep {
        Some(e + 1)
    } else {
        None
    }
}

fn address_of(t: &Vec<char>, s: usize) -> (r: Option<(usize, usize, usize, usize)>)
    requires
        s <= t@.len(),
    ensures
        match r {
            Some(f) => address_at(t@, s as int) == Some((f.0 as int, f.1 as int, f.2 as int, f.3 as int))
                && f.3 < t@.len(),
            None => address_at(t@, s as int) is None,
        },
{
    match after_field_of(t, s, '.') {
        Some(b) => match after_field_of(t, b, '.') {
            Some(c) => match after_field_of(t, c, '.') {
                Some(d) => match after_field_of(t, d, ',') {
                    Some(e) => Some((b, c, d, e - 1)),
                    None => None,
                },
                None => None,
            },
            None => None,
        },
        None => None,
    }
}

fn matches_at_of(t: &Vec<char>, s: usize) -> (r: bool)
    requires
        s <= t@.len(),
    ensures
        r == matches_at(t@, s as int),
{
    match address_of(t, s) {
        None => false,
        Some(fields) => {
            let e = fields.3;
            if t.len() - e < 14 {
                return false;
            }
            let end: usize = e + 13;
            let mut k: usize = e + 1;
            while k < end
                invariant
                    address_at(t@, s as int) == Some(
                        (fields.0 as int, fields.1 as int, fields.2 as int, e as int),
                    ),
                    end == e + 13,
                    e + 14 <= t@.len(),
                    e + 1 <= k <= e + 13,
                    forall|j: int| e + 1 <= j < k ==> #[trigger] is_id_char(t@[j]),
                decreases end - k,
            {
                let c = t[k];
                if !(is_ascii_digit_char(c) || ('A' <= c && c <= 'F')) {
                    assert(!is_id_char(t@[k as int]));
                    return false;
                }
                k = k + 1;
            }
            t[end] == ','
        },
    }
}

fn first_match(t: &Vec<char>) -> (r: Option<usize>)
    ensures
        match r {
            Some(s) => first_match_from(t@, 0) == Some(s as int) && s < t@.len() && matches_at(
                t@,
                s as int,
            ),
            None => first_match_from(t@, 0) is None,
        },
{
    let mut i: usize = 0;
    while i < t.len()
        invariant
            i <= t@.len(),
            first_match_from(t@, 0) == first_match_from(t@, i as int),
        decreases t@.len() - i,
    {
        if matches_at_of(t, i) {
            return Some(i);
        }
        i = i + 1;
    }
    None
}

fn octet_of(t: &Vec<char>, from: usize, to: usize) -> (r: Option<u8>)
    requires
        from <= to <= t@.len(),
    ensures
        r == octet(t@.subrange(from as int, to as int)),
{
    let ghost f = t@.subrange(from as int, to as int);
    if to - from < 1 || to - from > 3 {
        return None;
    }
    let mut k: usize = from;
    while k < to
        invariant
            from <= k <= to <= t@.len(),
            to - from <= 3,
            f == t@.subrange(from as int, to as int),
            forall|j: int| from <= j < k ==> #[trigger] is_ascii_digit(t@[j]),
        decreases to - k,
    {
        if !is_ascii_digit_char(t[k]) {
            assert(!is_ascii_digit(f[k - from]));
            return None;
        }
        k = k + 1;
    }
    assert forall|j: int| 0 <= j < f.len() implies #[trigger] is_ascii_digit(f[j]) by {
        assert(is_ascii_digit(t@[from + j]));
    }
    if to - from > 1 && t[from] == '0' {
        return None;
    }
    let mut v: u32 = 0;
    let mut k: usize = from;
    while k < to
        invariant
            from <= k <= to <= t@.len(),
            to - from <= 3,
            forall|j: int| from <= j < to ==> #[trigger] is_ascii_digit(t@[j]),
            v as int == digits_value(t@.subrange(from as int, k as int)),
            k - from == 0 ==> v == 0,
            k - from == 1 ==> v <= 9,
            k - from == 2 ==> v <= 99,
            k - from == 3 ==> v <= 999,
        decreases to - k,
    {
        let c = t[k];
        assert(is_ascii_digit(t@[k as int]));
        assert(t@.subrange(from as int, k + 1).drop_last() =~= t@.subrange(from as int, k as int));
        v = v * 10 + (c as u32 - '0' as u32);
        k = k + 1;
    }
    assert(f =~= t@.subrange(from as int, k as int));
    if v > 255 {
        None
    } else {
        Some(v as u8)
    }
}

/// Reads a discovery reply: the address and identifier token of the first
/// place where the reply pattern matches.
pub fn parse_bridge_response(response: &str) -> (r: Result<BridgeAddress, ReplyError>)
    ensures
        match r {
            Ok(b) => reply_spec(response@) == Ok::<(u32, Seq<char>), ReplyError>(b@),
            Err(e) => reply_spec(response@) == Err::<(u32, Seq<char>), ReplyError>(e),
        },
{
    let t = chars_of(response);
    let s = match first_match(&t) {
        None => return Err(ReplyError::Format),
        Some(s) => s,
    };
    let (b, c, d, e) = match address_of(&t, s) {
        None => return Err(ReplyError::Format),
        Some(fields) => fields,
    };
    let o1 = octet_of(&t, s, b - 1);
    let o2 = octet_of(&t, b, c - 1);
    let o3 = octet_of(&t, c, d - 1);
    let o4 = octet_of(&t, d, e);
    match (o1, o2, o3, o4) {
        (Some(a1), Some(a2), Some(a3), Some(a4)) => {
            let ip = Ipv4Address::from_octets(a1, a2, a3, a4);
            let id = response.substring_char(e + 1, e + 13).to_owned();
            Ok(BridgeAddress::new(ip, id))
        },
        _ => Err(ReplyError::Address),
    }
}

} // verus!
