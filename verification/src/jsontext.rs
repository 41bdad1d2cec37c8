//! JSON text production for audit events.
//!
//! Audit events leave the registry as one line of JSON text.  This module
//! renders the pieces — escaped strings, numbers, arrays, and objects of
//! optional fields — with the rendering itself defined as specification
//! functions, so an event's wire text is pinned down exactly.

use vstd::prelude::*;
use crate::decimal::{dec_str, u128_to_dec};
use crate::strbuild::push_char;

verus! {

/// The lowercase hex digit character for `d` (meaningful for `d < 16`).
pub open spec fn hex_digit(d: nat) -> char {
    if d == 0 { '0' }
    else if d == 1 { '1' }
    else if d == 2 { '2' }
    else if d == 3 { '3' }
    else if d == 4 { '4' }
    else if d == 5 { '5' }
    else if d == 6 { '6' }
    else if d == 7 { '7' }
    else if d == 8 { '8' }
    else if d == 9 { '9' }
    else if d == 10 { 'a' }
    else if d == 11 { 'b' }
    else if d == 12 { 'c' }
    else if d == 13 { 'd' }
    else if d == 14 { 'e' }
    else { 'f' }
}

/// How one character appears inside a JSON string: quotes and backslashes
/// are escaped, control characters use their short escapes or a `\u00xx`
/// escape, and everything else stands as itself.
pub open spec fn esc_char(c: char) -> Seq<char> {
    if c == '"' { seq!['\\', '"'] }
    else if c == '\\' { seq!['\\', '\\'] }
    else if c == '\u{8}' { seq!['\\', 'b'] }
    else if c == '\t' { seq!['\\', 't'] }
    else if c == '\n' { seq!['\\', 'n'] }
    else if c == '\u{c}' { seq!['\\', 'f'] }
    else if c == '\r' { seq!['\\', 'r'] }
    else if (c as u32) < 0x20 {
        seq!['\\', 'u', '0', '0', hex_digit((c as u32 / 16) as nat),
            hex_digit((c as u32 % 16) as nat)]
    } else {
        seq![c]
    }
}

/// A character sequence with every character escaped for JSON.
pub open spec fn escaped(s: Seq<char>) -> Seq<char>
    decreases s.len(),
{
    if s.len() == 0 {
        Seq::empty()
    } else {
        esc_char(s[0]) + escaped(s.skip(1))
    }
}

/// Escaping distributes over appending one character.
pub proof fn lemma_escaped_push(s: Seq<char>, c: char)
    ensures
        escaped(s.push(c)) == escaped(s) + esc_char(c),
    decreases s.len(),
{
    if s.len() == 0 {
        assert(s.push(c)[0] == c);
        assert(s.push(c).skip(1) =~= Seq::<char>::empty());
        assert(escaped(s.push(c).skip(1)) =~= Seq::<char>::empty());
        assert(escaped(s.push(c)) == esc_char(c) + escaped(s.push(c).skip(1)));
        assert(escaped(s) =~= Seq::<char>::empty());
        assert(escaped(s.push(c)) =~= escaped(s) + esc_char(c));
    } else {
        assert(s.push(c).skip(1) =~= s.skip(1).push(c));
        lemma_escaped_push(s.skip(1), c);
        assert(s.push(c)[0] == s[0]);
        assert(escaped(s.push(c)) == esc_char(s[0]) + escaped(s.skip(1).push(c)));
        assert(escaped(s.push(c)) =~= escaped(s) + esc_char(c));
    }
}

/// A JSON string token: the escaped characters between double quotes.
pub open spec fn json_str(s: Seq<char>) -> Seq<char> {
    seq!['"'] + escaped(s) + seq!['"']
}

/// A JSON string token, or `null` for an absent value.
pub open spec fn json_opt_str(o: Option<String>) -> Seq<char> {
    match o {
        Some(s) => json_str(s@),
        None => "null"@,
    }
}

/// The fragments joined with commas: the body of a JSON object or array.
pub open spec fn join_comma(parts: Seq<Seq<char>>) -> Seq<char>
    decreases parts.len(),
{
    if parts.len() == 0 {
        Seq::empty()
    } else if parts.len() == 1 {
        parts[0]
    } else {
        parts[0] + seq![','] + join_comma(parts.skip(1))
    }
}

/// Joining distributes over appending one fragment.
pub proof fn lemma_join_comma_push(parts: Seq<Seq<char>>, p: Seq<char>)
    ensures
        join_comma(parts.push(p)) == (if parts.len() == 0 {
            p
        } else {
            join_comma(parts) + seq![','] + p
        }),
    decreases parts.len(),
{
    if parts.len() == 0 {
        assert(parts.push(p).len() == 1);
        assert(parts.push(p)[0] == p);
    } else {
        assert(parts.push(p).skip(1) =~= parts.skip(1).push(p));
        lemma_join_comma_push(parts.skip(1), p);
        assert(parts.push(p)[0] == parts[0]);
        if parts.len() == 1 {
            assert(join_comma(parts.push(p)) =~= join_comma(parts) + seq![','] + p);
        } else {
            assert(join_comma(parts.push(p)) =~= join_comma(parts) + seq![','] + p);
        }
    }
}

/// A JSON array of string tokens.
pub open spec fn json_str_arr(items: Seq<Seq<char>>) -> Seq<char> {
    seq!['['] + join_comma(Seq::new(items.len(), |i: int| json_str(items[i]))) + seq![']']
}

/// The fragment list of one optional numeric field: `prefix` (the quoted
/// key and colon) followed by the decimal value, or nothing when absent.
pub open spec fn opt_num_frag(prefix: Seq<char>, o: Option<u64>) -> Seq<Seq<char>> {
    match o {
        Some(n) => seq![prefix + dec_str(n as nat)],
        None => Seq::empty(),
    }
}

/// The fragment list of one optional string field: `prefix` (the quoted
/// key and colon) followed by the string token, or nothing when absent.
pub open spec fn opt_str_frag(prefix: Seq<char>, o: Option<String>) -> Seq<Seq<char>> {
    match o {
        Some(s) => seq![prefix + json_str(s@)],
        None => Seq::empty(),
    }
}

/// The lowercase hex digit character of `d`.
fn hex_digit_char(d: u32) -> (c: char)
    requires
        d < 16,
    ensures
        c == hex_digit(d as nat),
{
    if d == 0 { '0' }
    else if d == 1 { '1' }
    else if d == 2 { '2' }
    else if d == 3 { '3' }
    else if d == 4 { '4' }
    else if d == 5 { '5' }
    else if d == 6 { '6' }
    else if d == 7 { '7' }
    else if d == 8 { '8' }
    else if d == 9 { '9' }
    else if d == 10 { 'a' }
    else if d == 11 { 'b' }
    else if d == 12 { 'c' }
    else if d == 13 { 'd' }
    else if d == 14 { 'e' }
    else { 'f' }
}

/// Append the escape of one character.
fn push_esc_char(buf: &mut String, c: char)
    ensures
        final(buf)@ == old(buf)@ + esc_char(c),
{
    if c == '"' {
        push_char(buf, '\\');
        push_char(buf, '"');
    } else if c == '\\' {
        push_char(buf, '\\');
        push_char(buf, '\\');
    } else if c == '\u{8}' {
        push_char(buf, '\\');
        push_char(buf, 'b');
    } else if c == '\t' {
        push_char(buf, '\\');
        push_char(buf, 't');
    } else if c == '\n' {
        push_char(buf, '\\');
        push_char(buf, 'n');
    } else if c == '\u{c}' {
        push_char(buf, '\\');
        push_char(buf, 'f');
    } else if c == '\r' {
        push_char(buf, '\\');
        push_char(buf, 'r');
    } else {
        let v = c as u32;
        if v < 0x20 {
            push_char(buf, '\\');
            push_char(buf, 'u');
            push_char(buf, '0');
            push_char(buf, '0');
            push_char(buf, hex_digit_char(v / 16));
            push_char(buf, hex_digit_char(v % 16));
        } else {
            push_char(buf, c);
        }
    }
    proof {
        assert(final(buf)@ =~= old(buf)@ + esc_char(c));
    }
}

/// Append the escaped characters of `s`.
fn push_escaped(buf: &mut String, s: &str)
    ensures
        final(buf)@ == old(buf)@ + escaped(s@),
{
    let n = s.unicode_len();
    let mut i: usize = 0;
    while i < n
        invariant
            n as nat == s@.len(),
            i <= n,
            buf@ == old(buf)@ + escaped(s@.subrange(0, i as int)),
        decreases n - i,
    {
        let c = s.get_char(i);
        push_esc_char(buf, c);
        proof {
            assert(s@.subrange(0, i + 1) =~= s@.subrange(0, i as int).push(c));
            lemma_escaped_push(s@.subrange(0, i as int), c);
            assert(buf@ =~= old(buf)@ + escaped(s@.subrange(0, i + 1)));
        }
        i = i + 1;
    }
    proof {
        assert(s@.subrange(0, n as int) =~= s@);
    }
}

/// Append a JSON string token of `s`.
pub fn push_json_str(buf: &mut String, s: &str)
    ensures
        final(buf)@ == old(buf)@ + json_str(s@),
{
    push_char(buf, '"');
    push_escaped(buf, s);
    push_char(buf, '"');
    proof {
        assert(final(buf)@ =~= old(buf)@ + json_str(s@));
    }
}

/// Append a JSON string token of `o`, or `null` when absent.
pub fn push_json_opt_str(buf: &mut String, o: &Option<String>)
    ensures
        final(buf)@ == old(buf)@ + json_opt_str(*o),
{
    match o {
        Some(s) => push_json_str(buf, s.as_str()),
        None => {
            push_char(buf, 'n');
            push_char(buf, 'u');
            push_char(buf, 'l');
            push_char(buf, 'l');
            proof {
                reveal_strlit("null");
                assert(final(buf)@ =~= old(buf)@ + "null"@);
            }
        },
    }
}

/// Append the decimal rendering of `n`.
pub fn push_dec_u64(buf: &mut String, n: u64)
    ensures
        final(buf)@ == old(buf)@ + dec_str(n as nat),
{
    let d = u128_to_dec(n as u128);
    buf.append(d.as_str());
}

/// Append a JSON array of string tokens.
pub fn push_json_str_arr(buf: &mut String, items: &Vec<String>)
    ensures
        final(buf)@ == old(buf)@ + json_str_arr(items.deep_view()),
{
    let ghost toks = Seq::new(items.deep_view().len(), |i: int| json_str(items.deep_view()[i]));
    push_char(buf, '[');
    let ghost start = buf@;
    let n = items.len();
    let mut i: usize = 0;
    while i < n
        invariant
            n == items@.len(),
            toks == Seq::new(items.deep_view().len(),
                |k: int| json_str(items.deep_view()[k])),
            items.deep_view().len() == n as nat,
            i <= n,
            buf@ == start + join_comma(toks.subrange(0, i as int)),
        decreases n - i,
    {
        if i > 0 {
            push_char(buf, ',');
        }
        push_json_str(buf, items[i].as_str());
        proof {
            assert(toks.subrange(0, i + 1) =~= toks.subrange(0, i as int).push(toks[i as int]));
            lemma_join_comma_push(toks.subrange(0, i as int), toks[i as int]);
            assert(toks[i as int] == json_str(items.deep_view()[i as int]));
            assert(buf@ =~= start + join_comma(toks.subrange(0, i + 1)));
        }
        i = i + 1;
    }
    push_char(buf, ']');
    proof {
        assert(toks.subrange(0, n as int) =~= toks);
        assert(final(buf)@ =~= old(buf)@ + json_str_arr(items.deep_view()));
    }
}

/// Add the fragment of one optional numeric field to a fragment list.
pub fn add_opt_num_frag(parts: &mut Vec<String>, prefix: &str, o: &Option<u64>)
    ensures
        final(parts).deep_view() == old(parts).deep_view() + opt_num_frag(prefix@, *o),
{
    match o {
        Some(n) => {
            let mut f = prefix.to_owned();
            push_dec_u64(&mut f, *n);
            parts.push(f);
            proof {
                assert(final(parts).deep_view()
                    =~= old(parts).deep_view() + opt_num_frag(prefix@, *o));
            }
        },
        None => {
            proof {
                assert(final(parts).deep_view()
                    =~= old(parts).deep_view() + opt_num_frag(prefix@, *o));
            }
        },
    }
}

/// Add the fragment of one optional string field to a fragment list.
pub fn add_opt_str_frag(parts: &mut Vec<String>, prefix: &str, o: &Option<String>)
    ensures
        final(parts).deep_view() == old(parts).deep_view() + opt_str_frag(prefix@, *o),
{
    match o {
        Some(s) => {
            let mut f = prefix.to_owned();
            push_json_str(&mut f, s.as_str());
            parts.push(f);
            proof {
                assert(final(parts).deep_view()
                    =~= old(parts).deep_view() + opt_str_frag(prefix@, *o));
            }
        },
        None => {
            proof {
                assert(final(parts).deep_view()
                    =~= old(parts).deep_view() + opt_str_frag(prefix@, *o));
            }
        },
    }
}

/// Append the comma-joined fragments.
pub fn push_joined(buf: &mut String, parts: &Vec<String>)
    ensures
        final(buf)@ == old(buf)@ + join_comma(parts.deep_view()),
{
    let ghost start = buf@;
    let ghost frags = parts.deep_view();
    let n = parts.len();
    let mut i: usize = 0;
    while i < n
        invariant
            n == parts@.len(),
            frags == parts.deep_view(),
            frags.len() == n as nat,
            i <= n,
            buf@ == start + join_comma(frags.subrange(0, i as int)),
        decreases n - i,
    {
        if i > 0 {
            push_char(buf, ',');
        }
        buf.append(parts[i].as_str());
        proof {
            assert(frags.subrange(0, i + 1) =~= frags.subrange(0, i as int).push(frags[i as int]));
            lemma_join_comma_push(frags.subrange(0, i as int), frags[i as int]);
            assert(buf@ =~= start + join_comma(frags.subrange(0, i + 1)));
        }
        i = i + 1;
    }
    proof {
        assert(frags.subrange(0, n as int) =~= frags);
    }
}

/// Append a JSON object whose body is the comma-joined fragments.
pub fn push_json_object(buf: &mut String, parts: &Vec<String>)
    ensures
        final(buf)@ == old(buf)@ + seq!['{'] + join_comma(parts.deep_view()) + seq!['}'],
{
    push_char(buf, '{');
    push_joined(buf, parts);
    push_char(buf, '}');
    proof {
        assert(final(buf)@ =~= old(buf)@ + seq!['{'] + join_comma(parts.deep_view())
            + seq!['}']);
    }
}

/// Append a JSON array whose items are the comma-joined fragments.
pub fn push_json_array(buf: &mut String, parts: &Vec<String>)
    ensures
        final(buf)@ == old(buf)@ + seq!['['] + join_comma(parts.deep_view()) + seq![']'],
{
    push_char(buf, '[');
    push_joined(buf, parts);
    push_char(buf, ']');
    proof {
        assert(final(buf)@ =~= old(buf)@ + seq!['['] + join_comma(parts.deep_view())
            + seq![']']);
    }
}

} // verus!
