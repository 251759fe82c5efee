//! JSON text construction for the outbound wire formats, and the stored
//! channel-list codec.
//!
//! Escaping follows the canonical writer exactly: quote and backslash get a
//! backslash, the five named control characters get their short forms, every
//! other control character becomes `\u00xx` with lowercase hex, and nothing
//! else is touched. Payload objects are emitted with their keys in sorted
//! order, as the canonical writer's map does.

use vstd::prelude::*;

use crate::text::{hex_digit, push_char};

verus! {

/// The canonical escape of one character inside a JSON string.
pub open spec fn escaped_char(c: char) -> Seq<char> {
    if c == '"' {
        seq!['\\', '"']
    } else if c == '\\' {
        seq!['\\', '\\']
    } else if c == '\u{8}' {
        seq!['\\', 'b']
    } else if c == '\t' {
        seq!['\\', 't']
    } else if c == '\n' {
        seq!['\\', 'n']
    } else if c == '\u{c}' {
        seq!['\\', 'f']
    } else if c == '\r' {
        seq!['\\', 'r']
    } else if (c as u32) < 32 {
        seq!['\\', 'u', '0', '0', hex_digit((c as u8) / 16), hex_digit((c as u8) % 16)]
    } else {
        seq![c]
    }
}

/// The canonical escape of a whole string's characters.
pub open spec fn json_escaped(s: Seq<char>) -> Seq<char>
    decreases s.len(),
{
    if s.len() == 0 {
        Seq::empty()
    } else {
        json_escaped(s.drop_last()) + escaped_char(s.last())
    }
}

/// A JSON string literal: the escaped characters between quotes.
pub open spec fn json_string(s: Seq<char>) -> Seq<char> {
    seq!['"'] + json_escaped(s) + seq!['"']
}

/// A JSON value for an optional string: a string literal or `null`.
pub open spec fn json_opt_string(s: Option<Seq<char>>) -> Seq<char> {
    match s {
        Some(v) => json_string(v),
        None => "null"@,
    }
}

/// The members of a JSON array of string literals, comma-separated.
pub open spec fn joined_strings(items: Seq<Seq<char>>) -> Seq<char>
    decreases items.len(),
{
    if items.len() == 0 {
        Seq::empty()
    } else if items.len() == 1 {
        json_string(items[0])
    } else {
        joined_strings(items.drop_last()) + seq![','] + json_string(items.last())
    }
}

/// A JSON array of string literals.
pub open spec fn json_string_array(items: Seq<Seq<char>>) -> Seq<char> {
    seq!['['] + joined_strings(items) + seq![']']
}

// ---------------------------------------------------------------------------
// Uniqueness of the canonical encoding
// ---------------------------------------------------------------------------
/// Whether a character gets a backslash escape.
pub open spec fn is_escaped(c: char) -> bool {
    c == '"' || c == '\\' || (c as u32) < 32
}

/// The shape of one escape: never empty, never opening with a quote, a
/// backslash exactly for the escaped characters.
proof fn lemma_escaped_char_shape(c: char)
    ensures
        1 <= escaped_char(c).len(),
        escaped_char(c)[0] != '"',
        is_escaped(c) ==> escaped_char(c)[0] == '\\' && 2 <= escaped_char(c).len(),
        !is_escaped(c) ==> escaped_char(c) == seq![c],
{
}

/// Hex digits are distinct for distinct values.
proof fn lemma_hex_digit_injective(a: u8, b: u8)
    requires
        a < 16,
        b < 16,
        crate::text::hex_digit(a) == crate::text::hex_digit(b),
    ensures
        a == b,
{
    assert((crate::text::hex_digit(a) as u32) == (crate::text::hex_digit(b) as u32));
}

/// An escape determines the character it stands for and whatever follows it:
/// two escape-opened streams agree only if they open with the same character.
proof fn lemma_escaped_char_prefix(c1: char, c2: char, t1: Seq<char>, t2: Seq<char>)
    requires
        escaped_char(c1) + t1 == escaped_char(c2) + t2,
    ensures
        c1 == c2,
        t1 == t2,
{
    lemma_escaped_char_shape(c1);
    lemma_escaped_char_shape(c2);
    let e1 = escaped_char(c1);
    let e2 = escaped_char(c2);
    let s = e1 + t1;
    if !is_escaped(c1) && !is_escaped(c2) {
        assert(s[0] == c1 && s[0] == c2);
    } else if is_escaped(c1) && !is_escaped(c2) {
        assert(s[0] == '\\' && s[0] == c2);
        assert(is_escaped(c2));
    } else if !is_escaped(c1) && is_escaped(c2) {
        assert(s[0] == c1 && s[0] == '\\');
        assert(is_escaped(c1));
    } else {
        assert(s[1] == e1[1] && s[1] == e2[1]);
        if e1[1] == 'u' {
            assert(c1 != '"' && c1 != '\\' && c1 != '\u{8}' && c1 != '\t' && c1 != '\n' && c1
                != '\u{c}' && c1 != '\r');
            assert(c2 != '"' && c2 != '\\' && c2 != '\u{8}' && c2 != '\t' && c2 != '\n' && c2
                != '\u{c}' && c2 != '\r');
            assert(e1.len() == 6 && e2.len() == 6);
            assert(s[4] == e1[4] && s[4] == e2[4]);
            assert(s[5] == e1[5] && s[5] == e2[5]);
            lemma_hex_digit_injective((c1 as u8) / 16, (c2 as u8) / 16);
            lemma_hex_digit_injective((c1 as u8) % 16, (c2 as u8) % 16);
            assert((c1 as u8) == (c2 as u8));
            assert((c1 as u32) < 32 && (c2 as u32) < 32);
            assert((c1 as u32) == (c2 as u32));
        } else {
            assert(c1 == c2);
        }
    }
    assert(e1.len() == e2.len());
    assert(t1 =~= s.subrange(e1.len() as int, s.len() as int));
    assert(t2 =~= (e2 + t2).subrange(e2.len() as int, (e2 + t2).len() as int));
}

/// The escape of a string, peeled from the front.
proof fn lemma_json_escaped_first(s: Seq<char>)
    requires
        0 < s.len(),
    ensures
        json_escaped(s) == escaped_char(s[0]) + json_escaped(s.drop_first()),
    decreases s.len(),
{
    if s.len() == 1 {
        assert(s.drop_last() =~= Seq::<char>::empty());
        assert(s.drop_first() =~= Seq::<char>::empty());
        assert(json_escaped(s) =~= escaped_char(s[0]) + json_escaped(s.drop_first()));
    } else {
        let head = s.drop_last();
        lemma_json_escaped_first(head);
        assert(head[0] == s[0]);
        assert(head.drop_first() =~= s.drop_first().drop_last());
        assert(s.drop_first().last() == s.last());
        assert(json_escaped(s.drop_first()) == json_escaped(s.drop_first().drop_last())
            + escaped_char(s.drop_first().last()));
        assert(json_escaped(s) == (escaped_char(s[0]) + json_escaped(s.drop_first().drop_last()))
            + escaped_char(s.last()));
        assert((escaped_char(s[0]) + json_escaped(s.drop_first().drop_last())) + escaped_char(
            s.last(),
        ) =~= escaped_char(s[0]) + (json_escaped(s.drop_first().drop_last()) + escaped_char(
            s.last(),
        )));
    }
}

/// A quote-terminated escape stream determines its string and what follows
/// the closing quote.
proof fn lemma_escape_stream_unique(x: Seq<char>, y: Seq<char>, r1: Seq<char>, r2: Seq<char>)
    requires
        json_escaped(x) + seq!['"'] + r1 == json_escaped(y) + seq!['"'] + r2,
    ensures
        x == y,
        r1 == r2,
    decreases x.len(),
{
    let s = json_escaped(x) + seq!['"'] + r1;
    if x.len() == 0 {
        assert(json_escaped(x) =~= Seq::<char>::empty());
        assert(s[0] == '"');
        if y.len() > 0 {
            lemma_json_escaped_first(y);
            lemma_escaped_char_shape(y[0]);
            assert(s[0] == escaped_char(y[0])[0]);
        }
        assert(y.len() == 0);
        assert(json_escaped(y) =~= Seq::<char>::empty());
        assert(r1 =~= s.subrange(1, s.len() as int));
        assert(r2 =~= (json_escaped(y) + seq!['"'] + r2).subrange(
            1,
            (json_escaped(y) + seq!['"'] + r2).len() as int,
        ));
        assert(x =~= y);
    } else {
        if y.len() == 0 {
            assert(json_escaped(y) =~= Seq::<char>::empty());
            assert(s[0] == '"');
            lemma_json_escaped_first(x);
            lemma_escaped_char_shape(x[0]);
            assert(s[0] == escaped_char(x[0])[0]);
            assert(false);
        }
        lemma_json_escaped_first(x);
        lemma_json_escaped_first(y);
        let tail1 = json_escaped(x.drop_first()) + seq!['"'] + r1;
        let tail2 = json_escaped(y.drop_first()) + seq!['"'] + r2;
        assert(escaped_char(x[0]) + tail1 =~= s);
        assert(escaped_char(y[0]) + tail2 =~= json_escaped(y) + seq!['"'] + r2);
        lemma_escaped_char_prefix(x[0], y[0], tail1, tail2);
        lemma_escape_stream_unique(x.drop_first(), y.drop_first(), r1, r2);
        assert(x =~= seq![x[0]] + x.drop_first());
        assert(y =~= seq![y[0]] + y.drop_first());
    }
}

/// The members of a nonempty array, peeled from the front.
proof fn lemma_joined_first(a: Seq<Seq<char>>)
    requires
        0 < a.len(),
    ensures
        a.len() == 1 ==> joined_strings(a) == json_string(a[0]),
        1 < a.len() ==> joined_strings(a) == json_string(a[0]) + (seq![','] + joined_strings(
            a.drop_first(),
        )),
    decreases a.len(),
{
    if a.len() == 1 {
    } else if a.len() == 2 {
        assert(a.drop_last().len() == 1);
        assert(a.drop_last()[0] == a[0]);
        assert(joined_strings(a.drop_last()) == json_string(a.drop_last()[0]));
        assert(a.drop_first().len() == 1);
        assert(a.drop_first()[0] == a.last());
        assert(joined_strings(a.drop_first()) == json_string(a.drop_first()[0]));
        assert((json_string(a[0]) + seq![',']) + json_string(a.last()) =~= json_string(a[0]) + (
        seq![','] + joined_strings(a.drop_first())));
    } else {
        let head = a.drop_last();
        lemma_joined_first(head);
        assert(head[0] == a[0]);
        assert(head.drop_first() =~= a.drop_first().drop_last());
        assert(a.drop_first().last() == a.last());
        assert(joined_strings(a.drop_first()) == joined_strings(a.drop_first().drop_last())
            + seq![','] + json_string(a.drop_first().last()));
        assert(joined_strings(a) == ((json_string(a[0]) + (seq![','] + joined_strings(
            a.drop_first().drop_last(),
        ))) + seq![',']) + json_string(a.last()));
        assert(((json_string(a[0]) + (seq![','] + joined_strings(a.drop_first().drop_last())))
            + seq![',']) + json_string(a.last()) =~= json_string(a[0]) + (seq![','] + ((
        joined_strings(a.drop_first().drop_last()) + seq![',']) + json_string(
            a.drop_first().last(),
        ))));
    }
}

/// The member list of an array is determined by its canonical text.
proof fn lemma_joined_unique(a: Seq<Seq<char>>, b: Seq<Seq<char>>)
    requires
        joined_strings(a) == joined_strings(b),
    ensures
        a == b,
    decreases a.len(),
{
    if a.len() == 0 && b.len() == 0 {
        assert(a =~= b);
    } else if a.len() == 0 {
        lemma_joined_first(b);
        assert(joined_strings(a) =~= Seq::<char>::empty());
        assert(joined_strings(b).len() >= json_string(b[0]).len());
        assert(false);
    } else if b.len() == 0 {
        lemma_joined_first(a);
        assert(joined_strings(b) =~= Seq::<char>::empty());
        assert(joined_strings(a).len() >= json_string(a[0]).len());
        assert(false);
    } else {
        lemma_joined_first(a);
        lemma_joined_first(b);
        let rest_a: Seq<char> = if a.len() == 1 {
            Seq::empty()
        } else {
            seq![','] + joined_strings(a.drop_first())
        };
        let rest_b: Seq<char> = if b.len() == 1 {
            Seq::empty()
        } else {
            seq![','] + joined_strings(b.drop_first())
        };
        assert(json_string(a[0]) + rest_a =~= joined_strings(a));
        assert(json_string(b[0]) + rest_b =~= joined_strings(b));
        let sa = json_escaped(a[0]) + seq!['"'] + rest_a;
        let sb = json_escaped(b[0]) + seq!['"'] + rest_b;
        assert(seq!['"'] + sa =~= json_string(a[0]) + rest_a);
        assert(seq!['"'] + sb =~= json_string(b[0]) + rest_b);
        assert(sa =~= (seq!['"'] + sa).subrange(1, (seq!['"'] + sa).len() as int));
        assert(sb =~= (seq!['"'] + sb).subrange(1, (seq!['"'] + sb).len() as int));
        lemma_escape_stream_unique(a[0], b[0], rest_a, rest_b);
        if a.len() == 1 && b.len() == 1 {
            assert(a =~= b);
        } else if a.len() == 1 {
            // rest_b equals the empty rest_a, yet opens with a comma.
            assert(rest_b.len() == 0);
            assert(rest_b[0] == ',');
            assert(false);
        } else if b.len() == 1 {
            // rest_a equals the empty rest_b, yet opens with a comma.
            assert(rest_a.len() == 0);
            assert(rest_a[0] == ',');
            assert(false);
        } else {
            assert(joined_strings(a.drop_first()) =~= rest_a.subrange(1, rest_a.len() as int));
            assert(joined_strings(b.drop_first()) =~= rest_b.subrange(1, rest_b.len() as int));
            lemma_joined_unique(a.drop_first(), b.drop_first());
            assert(a =~= seq![a[0]] + a.drop_first());
            assert(b =~= seq![b[0]] + b.drop_first());
        }
    }
}

/// The canonical encoding of a channel list is unique: two lists with the
/// same canonical text are the same list. In particular, the decoder's
/// contract names a single list for any canonical input.
pub proof fn lemma_json_string_array_injective(a: Seq<Seq<char>>, b: Seq<Seq<char>>)
    requires
        json_string_array(a) == json_string_array(b),
    ensures
        a == b,
{
    let ja = joined_strings(a);
    let jb = joined_strings(b);
    let wa = seq!['['] + ja + seq![']'];
    let wb = seq!['['] + jb + seq![']'];
    assert(wa.len() == wb.len());
    assert(ja.len() == jb.len());
    assert(ja =~= wa.subrange(1, 1 + ja.len() as int));
    assert(jb =~= wb.subrange(1, 1 + jb.len() as int));
    lemma_joined_unique(a, b);
}

/// Appends one character's canonical escape.
fn push_escaped_char(out: &mut String, c: char)
    ensures
        final(out)@ == old(out)@ + escaped_char(c),
{
    if c == '"' {
        push_char(out, '\\');
        push_char(out, '"');
    } else if c == '\\' {
        push_char(out, '\\');
        push_char(out, '\\');
    } else if c == '\u{8}' {
        push_char(out, '\\');
        push_char(out, 'b');
    } else if c == '\t' {
        push_char(out, '\\');
        push_char(out, 't');
    } else if c == '\n' {
        push_char(out, '\\');
        push_char(out, 'n');
    } else if c == '\u{c}' {
        push_char(out, '\\');
        push_char(out, 'f');
    } else if c == '\r' {
        push_char(out, '\\');
        push_char(out, 'r');
    } else if (c as u32) < 32 {
        push_char(out, '\\');
        push_char(out, 'u');
        push_char(out, '0');
        push_char(out, '0');
        let b = c as u8;
        let hi = b / 16;
        let lo = b % 16;
        let c_hi = if hi < 10 {
            (('0' as u8) + hi) as char
        } else {
            (('a' as u8) + (hi - 10)) as char
        };
        let c_lo = if lo < 10 {
            (('0' as u8) + lo) as char
        } else {
            (('a' as u8) + (lo - 10)) as char
        };
        push_char(out, c_hi);
        push_char(out, c_lo);
    } else {
        push_char(out, c);
    }
    assert(out@ =~= old(out)@ + escaped_char(c));
}

/// Appends a JSON string literal holding `s`.
pub fn push_json_string(out: &mut String, s: &str)
    ensures
        final(out)@ == old(out)@ + json_string(s@),
{
    push_char(out, '"');
    let n = s.unicode_len();
    proof {
        assert(s@.take(0) =~= Seq::<char>::empty());
        assert(json_escaped(s@.take(0)) =~= Seq::<char>::empty());
        assert(out@ =~= old(out)@ + seq!['"'] + json_escaped(s@.take(0)));
    }
    for i in 0..n
        invariant
            n == s@.len(),
            out@ == old(out)@ + seq!['"'] + json_escaped(s@.take(i as int)),
    {
        proof {
            assert(s@.take(i as int + 1).drop_last() =~= s@.take(i as int));
            assert(s@.take(i as int + 1).last() == s@[i as int]);
        }
        push_escaped_char(out, s.get_char(i));
        assert(out@ =~= old(out)@ + seq!['"'] + json_escaped(s@.take(i as int + 1)));
    }
    push_char(out, '"');
    proof {
        assert(s@.take(n as int) =~= s@);
        assert(out@ =~= old(out)@ + json_string(s@));
    }
}

/// Appends a JSON string literal or `null`.
pub fn push_json_opt_string(out: &mut String, s: &Option<String>)
    ensures
        final(out)@ == old(out)@ + json_opt_string(s.deep_view()),
{
    match s {
        Some(v) => push_json_string(out, v.as_str()),
        None => {
            out.append("null");
            assert(out@ =~= old(out)@ + json_opt_string(s.deep_view()));
        },
    }
}

/// Relies on `serde_json::to_string` for `Vec<String>`: writes the canonical
/// JSON array of string literals with the escapes named above, and cannot
/// fail for a vector of strings.
#[verifier::external_body]
pub fn channel_list_json(names: &Vec<String>) -> (r: String)
    ensures
        r@ == json_string_array(names.deep_view()),
{
    serde_json::to_string(names).unwrap_or_default()
}

/// Relies on `serde_json::from_str` for `Vec<String>`: a canonical JSON array
/// of string literals decodes to exactly the strings it holds; text it cannot
/// read as such an array is refused.
#[verifier::external_body]
fn parse_channel_list_raw(s: &str) -> (r: Option<Vec<String>>)
    ensures
        r is None ==> forall|v: Seq<Seq<char>>| s@ != json_string_array(v),
        r matches Some(ns) ==> forall|v: Seq<Seq<char>>|
            s@ == json_string_array(v) ==> ns.deep_view() == v,
{
    serde_json::from_str::<Vec<String>>(s).ok()
}

/// Decodes a stored channel list, accepting exactly the canonical text the
/// encoder writes: the decoded strings re-encode to the input, or the input
/// is refused. The store only ever writes canonical text, so anything else
/// is treated as corrupt.
pub fn parse_channel_list(s: &str) -> (r: Option<Vec<String>>)
    ensures
        r matches Some(ns) ==> s@ == json_string_array(ns.deep_view()),
        r is None ==> forall|v: Seq<Seq<char>>| s@ != json_string_array(v),
{
    match parse_channel_list_raw(s) {
        Some(ns) => {
            let reencoded = channel_list_json(&ns);
            if crate::text::str_eq(reencoded.as_str(), s) {
                Some(ns)
            } else {
                proof {
                    assert forall|v: Seq<Seq<char>>| s@ != json_string_array(v) by {
                        if s@ == json_string_array(v) {
                            assert(ns.deep_view() == v);
                        }
                    }
                }
                None
            }
        },
        None => None,
    }
}

} // verus!
