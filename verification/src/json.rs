//! A small JSON writer: the render contexts handed to the templating engine
//! are framed here as JSON text, with every contract stating the exact
//! characters written.

use vstd::prelude::*;

use crate::display::{digit_char, int_digits};

verus! {

/// The four-bit value `d` as a lowercase hexadecimal digit.
pub open spec fn hex_digit(d: int) -> char {
    if d < 10 {
        digit_char(d)
    } else if d == 10 {
        'a'
    } else if d == 11 {
        'b'
    } else if d == 12 {
        'c'
    } else if d == 13 {
        'd'
    } else if d == 14 {
        'e'
    } else {
        'f'
    }
}

/// One character of a JSON string body.
pub open spec fn jesc_char(c: char) -> Seq<char> {
    if c == '"' {
        seq!['\\', '"']
    } else if c == '\\' {
        seq!['\\', '\\']
    } else if c == '\n' {
        seq!['\\', 'n']
    } else if c == '\r' {
        seq!['\\', 'r']
    } else if c == '\t' {
        seq!['\\', 't']
    } else if (c as int) < 32 {
        seq!['\\', 'u', '0', '0', hex_digit((c as int) / 16), hex_digit((c as int) % 16)]
    } else {
        seq![c]
    }
}

/// A JSON string body with every special character escaped.
pub open spec fn jesc(s: Seq<char>) -> Seq<char>
    decreases s.len(),
{
    if s.len() == 0 {
        Seq::empty()
    } else {
        jesc_char(s[0]) + jesc(s.skip(1))
    }
}

/// A JSON string literal.
pub open spec fn jstr(s: Seq<char>) -> Seq<char> {
    seq!['"'] + jesc(s) + seq!['"']
}

/// A JSON boolean literal.
pub open spec fn jbool(b: bool) -> Seq<char> {
    if b {
        "true"@
    } else {
        "false"@
    }
}

proof fn lemma_jesc_append(a: Seq<char>, b: Seq<char>)
    ensures
        jesc(a + b) == jesc(a) + jesc(b),
    decreases a.len(),
{
    if a.len() == 0 {
        assert(a + b =~= b);
        assert(jesc(a) + jesc(b) =~= jesc(b));
    } else {
        assert((a + b)[0] == a[0]);
        assert((a + b).skip(1) =~= a.skip(1) + b);
        lemma_jesc_append(a.skip(1), b);
        assert(jesc_char(a[0]) + (jesc(a.skip(1)) + jesc(b)) =~= (jesc_char(a[0]) + jesc(
            a.skip(1),
        )) + jesc(b));
    }
}

proof fn lemma_jesc_one(c: char)
    ensures
        jesc(seq![c]) == jesc_char(c),
{
    assert(seq![c].len() == 1);
    assert(seq![c][0] == c);
    assert(seq![c].skip(1) =~= Seq::<char>::empty());
    assert(jesc(Seq::<char>::empty()) =~= Seq::<char>::empty());
    assert(jesc(seq![c]) =~= jesc_char(c) + jesc(Seq::<char>::empty()));
    assert(jesc_char(c) + Seq::<char>::empty() =~= jesc_char(c));
}

fn hex_digit_exec(d: u32) -> (c: char)
    requires
        d < 16,
    ensures
        c == hex_digit(d as int),
{
    if d == 0 { '0' } else if d == 1 { '1' } else if d == 2 { '2' } else if d == 3 { '3' }
    else if d == 4 { '4' } else if d == 5 { '5' } else if d == 6 { '6' } else if d == 7 { '7' }
    else if d == 8 { '8' } else if d == 9 { '9' } else if d == 10 { 'a' } else if d == 11 { 'b' }
    else if d == 12 { 'c' } else if d == 13 { 'd' } else if d == 14 { 'e' } else { 'f' }
}

/// Appends the escaped JSON body of `s` to `out`.
fn jesc_into(out: &mut String, s: &str)
    ensures
        final(out)@ == old(out)@ + jesc(s@),
{
    let n = s.unicode_len();
    let mut i: usize = 0;
    proof {
        assert(s@.take(0) =~= Seq::<char>::empty());
        assert(out@ + jesc(s@.take(0)) =~= out@);
    }
    while i < n
        invariant
            i <= n,
            n == s@.len(),
            out@ == old(out)@ + jesc(s@.take(i as int)),
        decreases n - i,
    {
        let c = s.get_char(i);
        if c == '"' {
            out.push('\\');
            out.push('"');
        } else if c == '\\' {
            out.push('\\');
            out.push('\\');
        } else if c == '\n' {
            out.push('\\');
            out.push('n');
        } else if c == '\r' {
            out.push('\\');
            out.push('r');
        } else if c == '\t' {
            out.push('\\');
            out.push('t');
        } else if (c as u32) < 32 {
            out.push('\\');
            out.push('u');
            out.push('0');
            out.push('0');
            out.push(hex_digit_exec((c as u32) / 16));
            out.push(hex_digit_exec((c as u32) % 16));
            proof {
                assert(c as int == c as u32 as int);
                assert((c as u32) / 16 < 16);
                assert((c as u32) % 16 < 16);
                assert(((c as u32) / 16) as int == c as int / 16);
                assert(((c as u32) % 16) as int == c as int % 16);
            }
        } else {
            out.push(c);
        }
        proof {
            assert(s@.take(i + 1) =~= s@.take(i as int) + seq![c]);
            lemma_jesc_append(s@.take(i as int), seq![c]);
            lemma_jesc_one(c);
            assert(out@ =~= old(out)@ + jesc(s@.take(i + 1)));
        }
        i = i + 1;
    }
    proof {
        assert(s@.take(n as int) =~= s@);
    }
}

/// Appends the JSON string literal for `s` to `out`.
pub fn jstr_into(out: &mut String, s: &str)
    ensures
        final(out)@ == old(out)@ + jstr(s@),
{
    out.push('"');
    jesc_into(out, s);
    out.push('"');
    proof {
        assert(out@ =~= old(out)@ + jstr(s@));
    }
}

/// Appends a JSON boolean to `out`.
pub fn jbool_into(out: &mut String, b: bool)
    ensures
        final(out)@ == old(out)@ + jbool(b),
{
    if b {
        out.append("true");
    } else {
        out.append("false");
    }
}

/// Appends a JSON number to `out`.
pub fn jint_into(out: &mut String, n: i64)
    ensures
        final(out)@ == old(out)@ + int_digits(n as int),
{
    crate::display::int_into(out, n)
}

} // verus!
