//! Small verified text utilities: ASCII case folding (MAC filters compare
//! case-insensitively), plain string equality, and lowercase hex rendering of
//! hardware addresses.

use vstd::prelude::*;

verus! {

/// ASCII lowercase of one character; everything outside `'A'..='Z'` is kept.
pub open spec fn lower_char(c: char) -> char {
    if 'A' <= c && c <= 'Z' {
        ((c as u8) + 32) as char
    } else {
        c
    }
}

/// ASCII lowercase of a whole character sequence.
pub open spec fn lower(s: Seq<char>) -> Seq<char> {
    s.map_values(|c: char| lower_char(c))
}

/// Case folding is idempotent: folding twice equals folding once.
pub proof fn lemma_lower_idempotent(s: Seq<char>)
    ensures
        lower(lower(s)) == lower(s),
{
    assert(lower(lower(s)) =~= lower(s)) by {
        assert forall|i: int| 0 <= i < s.len() implies lower_char(lower_char(s[i]))
            == lower_char(s[i]) by {
            let c = s[i];
            if 'A' <= c && c <= 'Z' {
                assert(lower_char(c) == ((c as u8) + 32) as char);
            }
        }
    }
}

fn to_lower_char(c: char) -> (r: char)
    ensures
        r == lower_char(c),
{
    if 'A' <= c && c <= 'Z' {
        ((c as u8) + 32) as char
    } else {
        c
    }
}

/// Plain equality of two string slices, decided character by character.
pub fn str_eq(a: &str, b: &str) -> (r: bool)
    ensures
        r == (a@ == b@),
{
    let n = a.unicode_len();
    let m = b.unicode_len();
    if n != m {
        assert(a@ != b@);
        return false;
    }
    for i in 0..n
        invariant
            n == a@.len(),
            n == b@.len(),
            forall|j: int| 0 <= j < i ==> a@[j] == b@[j],
    {
        if a.get_char(i) != b.get_char(i) {
            return false;
        }
    }
    assert(a@ =~= b@);
    true
}

/// Case-insensitive equality in the ASCII sense, as MAC filters are compared.
pub fn eq_ignore_ascii_case(a: &str, b: &str) -> (r: bool)
    ensures
        r == (lower(a@) == lower(b@)),
{
    let n = a.unicode_len();
    let m = b.unicode_len();
    if n != m {
        assert(lower(a@).len() != lower(b@).len());
        return false;
    }
    for i in 0..n
        invariant
            n == a@.len(),
            n == b@.len(),
            forall|j: int| 0 <= j < i ==> lower_char(a@[j]) == lower_char(b@[j]),
    {
        let ca = to_lower_char(a.get_char(i));
        let cb = to_lower_char(b.get_char(i));
        if ca != cb {
            assert(lower(a@)[i as int] != lower(b@)[i as int]);
            return false;
        }
    }
    assert(lower(a@) =~= lower(b@));
    true
}

/// Lowercase hex digit for a value below 16.
pub open spec fn hex_digit(n: u8) -> char
    recommends
        n < 16,
{
    if n < 10 {
        (('0' as u8) + n) as char
    } else {
        (('a' as u8) + (n - 10)) as char
    }
}

/// Two lowercase hex digits of one byte, high nibble first.
pub open spec fn hex_pair(b: u8) -> Seq<char> {
    seq![hex_digit(b / 16), hex_digit(b % 16)]
}

/// The canonical textual form of a six-byte hardware address:
/// colon-separated lowercase hex pairs.
pub open spec fn mac_label(b: Seq<u8>) -> Seq<char>
    recommends
        b.len() == 6,
{
    hex_pair(b[0]) + seq![':'] + hex_pair(b[1]) + seq![':'] + hex_pair(b[2]) + seq![':'] + hex_pair(
        b[3],
    ) + seq![':'] + hex_pair(b[4]) + seq![':'] + hex_pair(b[5])
}

/// Concatenation of two string slices.
pub fn concat2(a: &str, b: &str) -> (r: String)
    ensures
        r@ == a@ + b@,
{
    let mut s = String::new();
    s.append(a);
    s.append(b);
    assert(s@ =~= a@ + b@);
    s
}

/// Concatenation of four string slices.
pub fn concat4(a: &str, b: &str, c: &str, d: &str) -> (r: String)
    ensures
        r@ == a@ + b@ + c@ + d@,
{
    let mut s = String::new();
    s.append(a);
    s.append(b);
    s.append(c);
    s.append(d);
    assert(s@ =~= a@ + b@ + c@ + d@);
    s
}

/// The part of a string after its last `'/'`; the whole string when it has
/// none, and empty when it ends in `'/'`.
pub open spec fn last_segment(s: Seq<char>) -> Seq<char>
    decreases s.len(),
{
    if s.len() == 0 {
        s
    } else if s.last() == '/' {
        Seq::empty()
    } else {
        last_segment(s.drop_last()).push(s.last())
    }
}

/// The suffix of `s` after its last `'/'` (see [`last_segment`]).
pub fn suffix_after_last_slash(s: &str) -> (r: String)
    ensures
        r@ == last_segment(s@),
{
    let n = s.unicode_len();
    let mut seg = String::new();
    assert(s@.take(0) =~= Seq::<char>::empty());
    for i in 0..n
        invariant
            n == s@.len(),
            seg@ == last_segment(s@.take(i as int)),
    {
        let c = s.get_char(i);
        assert(s@.take(i as int + 1).drop_last() =~= s@.take(i as int));
        assert(s@.take(i as int + 1).last() == s@[i as int]);
        if c == '/' {
            seg = String::new();
        } else {
            push_char(&mut seg, c);
        }
    }
    assert(s@.take(n as int) =~= s@);
    seg
}

/// Relies on `String::push`: appends exactly the given character.
#[verifier::external_body]
pub fn push_char(s: &mut String, c: char)
    ensures
        final(s)@ == old(s)@.push(c),
{
    s.push(c);
}

fn push_hex_pair(s: &mut String, b: u8)
    ensures
        final(s)@ == old(s)@ + hex_pair(b),
{
    let hi = b / 16;
    let lo = b % 16;
    let c_hi = if hi < 10 {
        (('0' as u8) + hi) as char
    } else {
        (('a' as u8) + (hi - 10)) as char
    };
    let c_lo = if lo < 10 {
        (('0' as u8) + lo) as char
    } else {
        (('a' as u8) + (lo - 10)) as char
    };
    push_char(s, c_hi);
    push_char(s, c_lo);
    assert(s@ =~= old(s)@ + hex_pair(b));
}

/// Renders a hardware address as colon-separated lowercase hex pairs.
pub fn mac_string(b: &[u8; 6]) -> (r: String)
    ensures
        r@ == mac_label(b@),
{
    let mut s = String::new();
    push_hex_pair(&mut s, b[0]);
    push_char(&mut s, ':');
    push_hex_pair(&mut s, b[1]);
    push_char(&mut s, ':');
    push_hex_pair(&mut s, b[2]);
    push_char(&mut s, ':');
    push_hex_pair(&mut s, b[3]);
    push_char(&mut s, ':');
    push_hex_pair(&mut s, b[4]);
    push_char(&mut s, ':');
    push_hex_pair(&mut s, b[5]);
    assert(s@ =~= mac_label(b@));
    s
}

} // verus!
