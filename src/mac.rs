//! Hardware addresses: validation of the colon-separated form, and
//! conversion of the flat 12-digit key found in the device dump into it.
use vstd::prelude::*;
use crate::text::chars_of;

verus! {

/// An ASCII hexadecimal digit, in either case.
pub open spec fn is_hex_digit(c: char) -> bool {
    ||| '0' <= c <= '9'
    ||| 'a' <= c <= 'f'
    ||| 'A' <= c <= 'F'
}

/// The ASCII upper-case form of `c`; other characters are unchanged.
pub open spec fn ascii_upper(c: char) -> char {
    if 'a' <= c <= 'z' {
        ((c as u32) - 32) as char
    } else {
        c
    }
}

/// Relies on `char::is_ascii_hexdigit`: true exactly for `0-9`, `a-f`, `A-F`.
pub assume_specification[ char::is_ascii_hexdigit ](c: &char) -> (r: bool)
    ensures
        r == is_hex_digit(*c),
;

/// Relies on `char::to_ascii_uppercase`: maps `a-z` to `A-Z` and leaves
/// every other character as it is.
pub assume_specification[ char::to_ascii_uppercase ](c: &char) -> (r: char)
    ensures
        r == ascii_upper(*c),
;

/// Six groups of two hexadecimal digits separated by `:`: every third
/// character is a colon, all others are hex digits, 17 characters in all.
pub open spec fn valid_mac(s: Seq<char>) -> bool {
    &&& s.len() == 17
    &&& forall|i: int|
        0 <= i < 17 ==> if i % 3 == 2 {
            s[i] == ':'
        } else {
            is_hex_digit(s[i])
        }
}

/// The canonical address built from a 12-character flat key: a `:` before
/// every second character from the third on, letters in upper case.
pub open spec fn canonical_mac(k: Seq<char>) -> Seq<char> {
    Seq::new(
        17,
        |i: int|
            if i % 3 == 2 {
                ':'
            } else {
                ascii_upper(k[2 * (i / 3) + i % 3])
            },
    )
}

/// What `from_flat_key` returns for a key.
pub open spec fn from_flat_key_spec(k: Seq<char>) -> Option<Seq<char>> {
    if k.len() == 12 {
        Some(canonical_mac(k))
    } else {
        None
    }
}

/// Whether `s` is a well-formed address `XX:XX:XX:XX:XX:XX` (hex digits in
/// either case). No normalisation is performed.
pub fn validate(s: &str) -> (r: bool)
    ensures
        r == valid_mac(s@),
{
    let v = chars_of(s);
    if v.len() != 17 {
        return false;
    }
    let mut i: usize = 0;
    while i < 17
        invariant
            v@ == s@,
            v.len() == 17,
            i <= 17,
            forall|j: int|
                0 <= j < i ==> if j % 3 == 2 {
                    v@[j] == ':'
                } else {
                    is_hex_digit(v@[j])
                },
        decreases 17 - i,
    {
        if i % 3 == 2 {
            if v[i] != ':' {
                return false;
            }
        } else if !v[i].is_ascii_hexdigit() {
            return false;
        }
        i = i + 1;
    }
    true
}

/// The canonical address for a flat key of exactly 12 characters, and `None`
/// for a key of any other length.
pub fn from_flat_key(key: &str) -> (r: Option<String>)
    ensures
        r.is_none() <==> key@.len() != 12,
        r.is_some() ==> r.unwrap()@ == canonical_mac(key@),
{
    let k = chars_of(key);
    if k.len() != 12 {
        return None;
    }
    let ghost c = canonical_mac(k@);
    let mut r = String::new();
    let mut g: usize = 0;
    while g < 6
        invariant
            k@ == key@,
            k.len() == 12,
            c == canonical_mac(k@),
            g <= 6,
            g == 0 ==> r@.len() == 0,
            g > 0 ==> r@ == c.take(3 * g - 1),
        decreases 6 - g,
    {
        if g > 0 {
            r.push(':');
        }
        let hi = k[2 * g].to_ascii_uppercase();
        r.push(hi);
        let lo = k[2 * g + 1].to_ascii_uppercase();
        r.push(lo);
        assert(r@ =~= c.take(3 * g + 2));
        g = g + 1;
    }
    assert(r@ =~= c);
    Some(r)
}

/// Every 12-digit hexadecimal key converts to a valid address.
pub proof fn lemma_flat_key_gives_valid_mac(k: Seq<char>)
    requires
        k.len() == 12,
        forall|i: int| 0 <= i < 12 ==> is_hex_digit(k[i]),
    ensures
        valid_mac(canonical_mac(k)),
{
    let c = canonical_mac(k);
    assert forall|i: int| 0 <= i < 17 && i % 3 != 2 implies is_hex_digit(c[i]) by {
        let d = k[2 * (i / 3) + i % 3];
        assert(is_hex_digit(d));
        assert(is_hex_digit(ascii_upper(d)));
    }
}

} // verus!
