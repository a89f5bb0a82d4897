//! The display form of a canonical type: a compact, unambiguous string
//! that every constructible type can be written to and read back from.
//! Leaves use their catalog name; wrappers use prefix markers, so parsing
//! never needs lookahead.

use vstd::prelude::*;

use crate::strutil::{index_of_name, str_eq};
use crate::table::{pg_row, pg_table_len, pg_name_table, pg_row_exec};
use crate::ty::{Type, TypeV};

verus! {

/// The names of the built-in table, in row order.
pub open spec fn pg_names() -> Seq<Seq<char>> {
    Seq::new(pg_table_len() as nat, |i: int| pg_row(i).0)
}

/// One character of a quoted string; quotes and backslashes get escaped.
pub open spec fn esc_char(c: char) -> Seq<char> {
    if c == '"' || c == '\\' {
        seq!['\\', c]
    } else {
        seq![c]
    }
}

/// A string body with every quote and backslash escaped.
pub open spec fn esc(s: Seq<char>) -> Seq<char>
    decreases s.len(),
{
    if s.len() == 0 {
        Seq::empty()
    } else {
        esc_char(s[0]) + esc(s.skip(1))
    }
}

/// A quoted, escaped string.
pub open spec fn qstr(s: Seq<char>) -> Seq<char> {
    seq!['"'] + esc(s) + seq!['"']
}

/// The digit character of one decimal value below ten.
pub open spec fn digit_char(d: int) -> char {
    if d == 0 {
        '0'
    } else if d == 1 {
        '1'
    } else if d == 2 {
        '2'
    } else if d == 3 {
        '3'
    } else if d == 4 {
        '4'
    } else if d == 5 {
        '5'
    } else if d == 6 {
        '6'
    } else if d == 7 {
        '7'
    } else if d == 8 {
        '8'
    } else {
        '9'
    }
}

/// The decimal digits of a non-negative value.
pub open spec fn dec_digits(n: int) -> Seq<char>
    decreases n,
{
    if n < 10 {
        seq![digit_char(n)]
    } else {
        dec_digits(n / 10) + seq![digit_char(n % 10)]
    }
}

/// The decimal form of an integer, with a sign for negative values.
pub open spec fn int_digits(n: int) -> Seq<char> {
    if n < 0 {
        seq!['-'] + dec_digits(-n)
    } else {
        dec_digits(n)
    }
}

/// The display spellings of the module path segments of a user-defined
/// type, separated by commas.
pub open spec fn segs_display(segs: Seq<Seq<char>>) -> Seq<char>
    decreases segs.len(),
{
    if segs.len() == 0 {
        Seq::empty()
    } else if segs.len() == 1 {
        qstr(segs[0])
    } else {
        segs_display(segs.drop_last()) + seq![','] + qstr(segs.last())
    }
}

/// The display form: leaves show their catalog name, a nullable wrapper a
/// leading question mark, an array its dimension in brackets, and the
/// named cases their strings quoted.
pub open spec fn display_of(t: TypeV) -> Seq<char>
    decreases t,
{
    match t {
        TypeV::Nullable(inner) => seq!['?'] + display_of(*inner),
        TypeV::Array { elem, dim } => seq!['['] + int_digits(dim) + seq![']'] + display_of(
            *elem,
        ),
        TypeV::UserDefined { modpath, name } => seq!['{'] + segs_display(modpath) + seq![';']
            + qstr(name) + seq!['}'],
        TypeV::Other { schema, name } => seq!['('] + qstr(schema) + seq![','] + qstr(name)
            + seq![')'],
        TypeV::Any => "any"@,
        TypeV::AnyArray => "anyarray"@,
        TypeV::AnyCompatible => "anycompatible"@,
        TypeV::AnyCompatibleArray => "anycompatiblearray"@,
        TypeV::AnyCompatibleMultiRange => "anycompatiblemultirange"@,
        TypeV::AnyCompatibleNonArray => "anycompatiblenonarray"@,
        TypeV::AnycompatibleRange => "anycompatiblerange"@,
        TypeV::AnyElement => "anyelement"@,
        TypeV::AnyEnum => "anyenum"@,
        TypeV::AnyMultiRange => "anymultirange"@,
        TypeV::AnyNonArray => "anynonarray"@,
        TypeV::AnyRange => "anyrange"@,
        TypeV::Bit => "bit"@,
        TypeV::BitVarying => "bitvarying"@,
        TypeV::Bool => "bool"@,
        TypeV::Box => "box"@,
        TypeV::BpChar => "bpchar"@,
        TypeV::Bytea => "bytea"@,
        TypeV::Cid => "cid"@,
        TypeV::Cidr => "cidr"@,
        TypeV::Circle => "circle"@,
        TypeV::Cstring => "cstring"@,
        TypeV::Date => "date"@,
        TypeV::DateMultiRange => "datemultirange"@,
        TypeV::DateRange => "daterange"@,
        TypeV::DateTz => "datetz"@,
        TypeV::Decimal => "decimal"@,
        TypeV::Float4 => "float4"@,
        TypeV::Float8 => "float8"@,
        TypeV::Inet => "inet"@,
        TypeV::Int2 => "int2"@,
        TypeV::Int4 => "int4"@,
        TypeV::Int4MultiRange => "int4multirange"@,
        TypeV::Int4Range => "int4range"@,
        TypeV::Int8 => "int8"@,
        TypeV::Int8MultiRange => "int8multirange"@,
        TypeV::Int8Range => "int8range"@,
        TypeV::Interval => "interval"@,
        TypeV::Json => "json"@,
        TypeV::Jsonb => "jsonb"@,
        TypeV::JsonPath => "jsonpath"@,
        TypeV::Line => "line"@,
        TypeV::LSeg => "lseg"@,
        TypeV::MacAddr => "macaddr"@,
        TypeV::MacAddr8 => "macaddr8"@,
        TypeV::Money => "money"@,
        TypeV::Numeric => "numeric"@,
        TypeV::NumMultiRange => "nummultirange"@,
        TypeV::NumRange => "numrange"@,
        TypeV::Path => "path"@,
        TypeV::Point => "point"@,
        TypeV::Polygon => "polygon"@,
        TypeV::Range => "range"@,
        TypeV::Record => "record"@,
        TypeV::Serial2 => "serial2"@,
        TypeV::Serial4 => "serial4"@,
        TypeV::Serial8 => "serial8"@,
        TypeV::Text => "text"@,
        TypeV::Time => "time"@,
        TypeV::Timestamp => "timestamp"@,
        TypeV::TimestampTz => "timestamptz"@,
        TypeV::TimeTz => "timetz"@,
        TypeV::TsMultiRange => "tsmultirange"@,
        TypeV::TsQuery => "tsquery"@,
        TypeV::TsRange => "tsrange"@,
        TypeV::TsTzMultiRange => "tstzmultirange"@,
        TypeV::TsTzRange => "tstzrange"@,
        TypeV::TsVector => "tsvector"@,
        TypeV::Unknown => "unknown"@,
        TypeV::Uuid => "uuid"@,
        TypeV::VarChar => "varchar"@,
        TypeV::Void => "void"@,
        TypeV::Xml => "xml"@,
    }
}

/// One parsed quoted-string body: the text up to the closing quote and
/// whatever follows it.
pub open spec fn parse_qbody(s: Seq<char>) -> Option<(Seq<char>, Seq<char>)>
    decreases s.len(),
{
    if s.len() == 0 {
        None
    } else if s[0] == '\\' {
        if s.len() < 2 {
            None
        } else {
            match parse_qbody(s.skip(2)) {
                Some(p) => Some((seq![s[1]] + p.0, p.1)),
                None => None,
            }
        }
    } else if s[0] == '"' {
        Some((Seq::empty(), s.skip(1)))
    } else {
        match parse_qbody(s.skip(1)) {
            Some(p) => Some((seq![s[0]] + p.0, p.1)),
            None => None,
        }
    }
}

/// A quoted string: an opening quote, a body, a closing quote.
pub open spec fn parse_quoted(s: Seq<char>) -> Option<(Seq<char>, Seq<char>)> {
    if s.len() > 0 && s[0] == '"' {
        parse_qbody(s.skip(1))
    } else {
        None
    }
}

pub open spec fn is_digit(c: char) -> bool {
    '0' <= c && c <= '9'
}

pub open spec fn digit_val(c: char) -> int {
    c as int - '0' as int
}

/// Parses a run of digits, folding them onto `acc`.
pub open spec fn parse_digits(s: Seq<char>, acc: int) -> (int, Seq<char>)
    decreases s.len(),
{
    if s.len() > 0 && is_digit(s[0]) {
        parse_digits(s.skip(1), acc * 10 + digit_val(s[0]))
    } else {
        (acc, s)
    }
}

/// Parses an optionally signed decimal number.
pub open spec fn parse_int(s: Seq<char>) -> Option<(int, Seq<char>)> {
    if s.len() > 0 && s[0] == '-' {
        if s.len() > 1 && is_digit(s[1]) {
            let p = parse_digits(s.skip(1), 0);
            Some((-p.0, p.1))
        } else {
            None
        }
    } else if s.len() > 0 && is_digit(s[0]) {
        let p = parse_digits(s, 0);
        Some((p.0, p.1))
    } else {
        None
    }
}

/// Parses the comma-separated quoted segments up to the semicolon.
pub open spec fn parse_seg_list(s: Seq<char>) -> Option<(Seq<Seq<char>>, Seq<char>)>
    decreases s.len(),
{
    match parse_quoted(s) {
        Some(p) => {
            if p.1.len() > 0 && p.1[0] == ',' {
                if p.1.len() - 1 < s.len() {
                    match parse_seg_list(p.1.skip(1)) {
                        Some(q) => Some((seq![p.0] + q.0, q.1)),
                        None => None,
                    }
                } else {
                    None
                }
            } else if p.1.len() > 0 && p.1[0] == ';' {
                Some((seq![p.0], p.1.skip(1)))
            } else {
                None
            }
        },
        None => None,
    }
}

/// Reads a display form back into a canonical type. The whole string must
/// be consumed.
pub open spec fn parse_display(s: Seq<char>) -> Option<TypeV>
    decreases s.len(),
{
    if s.len() == 0 {
        None
    } else if s[0] == '?' {
        match parse_display(s.skip(1)) {
            Some(t) => Some(TypeV::Nullable(Box::new(t))),
            None => None,
        }
    } else if s[0] == '[' {
        match parse_int(s.skip(1)) {
            Some(p) => {
                if p.1.len() > 0 && p.1[0] == ']' && p.1.len() - 1 < s.len() {
                    match parse_display(p.1.skip(1)) {
                        Some(t) => Some(TypeV::Array { elem: Box::new(t), dim: p.0 }),
                        None => None,
                    }
                } else {
                    None
                }
            },
            None => None,
        }
    } else if s[0] == '{' {
        let rest = s.skip(1);
        if rest.len() > 0 && rest[0] == ';' {
            match parse_quoted(rest.skip(1)) {
                Some(p) => if p.1.len() == 1 && p.1[0] == '}' {
                    Some(TypeV::UserDefined { modpath: Seq::empty(), name: p.0 })
                } else {
                    None
                },
                None => None,
            }
        } else {
            match parse_seg_list(rest) {
                Some(q) => match parse_quoted(q.1) {
                    Some(p) => if p.1.len() == 1 && p.1[0] == '}' {
                        Some(TypeV::UserDefined { modpath: q.0, name: p.0 })
                    } else {
                        None
                    },
                    None => None,
                },
                None => None,
            }
        }
    } else if s[0] == '(' {
        match parse_quoted(s.skip(1)) {
            Some(a) => {
                if a.1.len() > 0 && a.1[0] == ',' {
                    match parse_quoted(a.1.skip(1)) {
                        Some(b) => if b.1.len() == 1 && b.1[0] == ')' {
                            Some(TypeV::Other { schema: a.0, name: b.0 })
                        } else {
                            None
                        },
                        None => None,
                    }
                } else {
                    None
                }
            },
            None => None,
        }
    } else {
        let i = index_of_name(pg_names(), s);
        if i >= 0 {
            Some(pg_row(i).1)
        } else {
            None
        }
    }
}


/// Splitting an escaped body distributes over concatenation.
proof fn lemma_esc_append(a: Seq<char>, b: Seq<char>)
    ensures
        esc(a + b) == esc(a) + esc(b),
    decreases a.len(),
{
    if a.len() == 0 {
        assert(a + b =~= b);
        assert(esc(a) + b =~= b);
        assert(esc(a) + esc(b) =~= esc(b));
    } else {
        assert((a + b)[0] == a[0]);
        assert((a + b).skip(1) =~= a.skip(1) + b);
        lemma_esc_append(a.skip(1), b);
        assert(esc_char(a[0]) + (esc(a.skip(1)) + esc(b)) =~= (esc_char(a[0]) + esc(a.skip(1)))
            + esc(b));
    }
}

proof fn lemma_esc_one(c: char)
    ensures
        esc(seq![c]) == esc_char(c),
{
    assert(seq![c].len() == 1);
    assert(seq![c][0] == c);
    assert(seq![c].skip(1) =~= Seq::<char>::empty());
    assert(esc(Seq::<char>::empty()) =~= Seq::<char>::empty());
    assert(esc(seq![c]) =~= esc_char(c) + esc(Seq::<char>::empty()));
    assert(esc_char(c) + Seq::<char>::empty() =~= esc_char(c));
}

/// Appends the escaped body of `s` to `out`.
fn escape_into(out: &mut String, s: &str)
    ensures
        final(out)@ == old(out)@ + esc(s@),
{
    let n = s.unicode_len();
    let mut i: usize = 0;
    proof {
        assert(s@.take(0) =~= Seq::<char>::empty());
        assert(out@ + esc(s@.take(0)) =~= out@);
    }
    while i < n
        invariant
            i <= n,
            n == s@.len(),
            out@ == old(out)@ + esc(s@.take(i as int)),
        decreases n - i,
    {
        let c = s.get_char(i);
        if c == '"' || c == '\\' {
            out.push('\\');
            out.push(c);
        } else {
            out.push(c);
        }
        proof {
            assert(s@.take(i + 1) =~= s@.take(i as int) + seq![c]);
            lemma_esc_append(s@.take(i as int), seq![c]);
            lemma_esc_one(c);
            assert(out@ =~= old(out)@ + esc(s@.take(i + 1)));
        }
        i = i + 1;
    }
    proof {
        assert(s@.take(n as int) =~= s@);
    }
}

/// Appends the quoted form of `s` to `out`.
fn qstr_into(out: &mut String, s: &str)
    ensures
        final(out)@ == old(out)@ + qstr(s@),
{
    out.push('"');
    escape_into(out, s);
    out.push('"');
    proof {
        assert(out@ =~= old(out)@ + qstr(s@));
    }
}

fn digit_exec(d: u64) -> (c: char)
    requires
        d < 10,
    ensures
        c == digit_char(d as int),
{
    if d == 0 { '0' } else if d == 1 { '1' } else if d == 2 { '2' } else if d == 3 { '3' }
    else if d == 4 { '4' } else if d == 5 { '5' } else if d == 6 { '6' } else if d == 7 { '7' }
    else if d == 8 { '8' } else { '9' }
}

/// Appends the decimal digits of `m` to `out`.
fn dec_into(out: &mut String, m: u64)
    ensures
        final(out)@ == old(out)@ + dec_digits(m as int),
    decreases m,
{
    if m < 10 {
        out.push(digit_exec(m));
        proof {
            assert(out@ =~= old(out)@ + dec_digits(m as int));
        }
    } else {
        dec_into(out, m / 10);
        out.push(digit_exec(m % 10));
        proof {
            assert(out@ =~= old(out)@ + dec_digits(m as int));
        }
    }
}

/// Appends the signed decimal form of `n` to `out`.
pub(crate) fn int_into(out: &mut String, n: i64)
    ensures
        final(out)@ == old(out)@ + int_digits(n as int),
{
    if n < 0 {
        out.push('-');
        let m: u64 = (-(n as i128)) as u64;
        proof {
            assert(m as int == -(n as int));
        }
        dec_into(out, m);
        proof {
            assert(out@ =~= old(out)@ + int_digits(n as int));
        }
    } else {
        dec_into(out, n as u64);
    }
}

/// Every array dimension of `t` fits the dimension field.
pub open spec fn dims_ok(t: TypeV) -> bool
    decreases t,
{
    match t {
        TypeV::Nullable(inner) => dims_ok(*inner),
        TypeV::Array { elem, dim } => i64::MIN <= dim <= i64::MAX && dims_ok(*elem),
        _ => true,
    }
}

/// The view of a canonical type always has representable dimensions.
pub proof fn lemma_type_dims_ok(t: Type)
    ensures
        dims_ok(t@),
    decreases t,
{
    match t {
        Type::Nullable(inner) => {
            lemma_type_dims_ok(*inner);
        },
        Type::Array { elem, dim } => {
            lemma_type_dims_ok(*elem);
        },
        _ => {},
    }
}


/// The value accumulated by a digit run never shrinks.
proof fn lemma_parse_digits_monotone(s: Seq<char>, acc: int)
    requires
        acc >= 0,
    ensures
        parse_digits(s, acc).0 >= acc,
    decreases s.len(),
{
    if s.len() > 0 && is_digit(s[0]) {
        lemma_parse_digits_monotone(s.skip(1), acc * 10 + digit_val(s[0]));
    }
}

fn digit_at(s: &str, i: usize) -> (r: bool)
    requires
        i < s@.len(),
    ensures
        r == is_digit(s@[i as int]),
{
    let c = s.get_char(i);
    '0' <= c && c <= '9'
}

/// Reads a digit run; `None` for a value above the largest representable
/// magnitude. The rest of the input is returned in either case.
fn digits_exec(s: &str) -> (r: (Option<u64>, String))
    ensures
        r.1@ == parse_digits(s@, 0).1,
        r.0 matches Some(m) ==> m as int == parse_digits(s@, 0).0 && m as int
            <= 0x8000000000000000,
        r.0 is None ==> parse_digits(s@, 0).0 > 0x8000000000000000,
        r.1@.len() <= s@.len(),
{
    let n = s.unicode_len();
    let mut i: usize = 0;
    let mut acc: u128 = 0;
    let mut over: bool = false;
    let ghost mut sacc: int = 0;
    proof {
        assert(s@.skip(0) =~= s@);
    }
    while i < n && digit_at(s, i)
        invariant
            i <= n,
            n == s@.len(),
            sacc >= 0,
            parse_digits(s@, 0) == parse_digits(s@.skip(i as int), sacc),
            !over ==> acc as int == sacc && sacc <= 0x8000000000000000,
            over ==> sacc > 0x8000000000000000,
        decreases n - i,
    {
        let c = s.get_char(i);
        let d: u64 = (c as u64) - ('0' as u64);
        proof {
            assert(s@.skip(i as int)[0] == s@[i as int]);
            assert(is_digit(s@[i as int]));
            assert(d as int == digit_val(s@[i as int]));
            assert(s@.skip(i as int).skip(1) =~= s@.skip(i + 1));
        }
        if !over {
            let na: u128 = acc * 10 + (d as u128);
            if na > 0x8000000000000000u128 {
                over = true;
            } else {
                acc = na;
            }
        }
        proof {
            sacc = sacc * 10 + digit_val(s@[i as int]);
        }
        i = i + 1;
    }
    proof {
        if i < n {
            assert(s@.skip(i as int)[0] == s@[i as int]);
            assert(!is_digit(s@[i as int]));
        }
        assert(parse_digits(s@.skip(i as int), sacc) == (sacc, s@.skip(i as int)));
    }
    let rest = s.substring_char(i, n).to_owned();
    proof {
        assert(rest@ =~= s@.skip(i as int));
    }
    if over {
        (None, rest)
    } else {
        (Some(acc as u64), rest)
    }
}

/// Reads an optionally signed number into the dimension range; `None` when
/// the input holds no number or one that does not fit.
fn int_exec(s: &str) -> (r: Option<(i64, String)>)
    ensures
        parse_int(s@) is None ==> r is None,
        r matches Some(e) ==> (parse_int(s@) matches Some(p) && p.0 == e.0 as int && p.1 == e.1@
            && e.1@.len() < s@.len()),
        parse_int(s@) matches Some(p) && i64::MIN <= p.0 <= i64::MAX ==> r is Some,
{
    let n = s.unicode_len();
    if n == 0 {
        return None;
    }
    let c = s.get_char(0);
    if c == '-' {
        if n < 2 {
            return None;
        }
        let c1 = s.get_char(1);
        if !('0' <= c1 && c1 <= '9') {
            return None;
        }
        let tail = s.substring_char(1, n);
        proof {
            assert(tail@ =~= s@.skip(1));
            assert(is_digit(s@[1]));
            assert(s@.skip(1)[0] == s@[1]);
            lemma_parse_digits_monotone(s@.skip(1), 0);
        }
        let (mag, rest) = digits_exec(tail);
        match mag {
            Some(m) => {
                proof {
                    assert(parse_digits(s@.skip(1), 0).1.len() < s@.skip(1).len()) by {
                        assert(parse_digits(s@.skip(1), 0) == parse_digits(
                            s@.skip(1).skip(1),
                            digit_val(s@.skip(1)[0]),
                        ));
                        lemma_parse_digits_rest(s@.skip(1).skip(1), digit_val(s@.skip(1)[0]));
                        assert(s@.skip(1).skip(1) =~= s@.skip(2));
                    }
                }
                if m == 0x8000000000000000u64 {
                    Some((i64::MIN, rest))
                } else {
                    Some((-(m as i64), rest))
                }
            },
            None => None,
        }
    } else if '0' <= c && c <= '9' {
        proof {
            assert(is_digit(s@[0]));
            lemma_parse_digits_monotone(s@, 0);
        }
        let (mag, rest) = digits_exec(s);
        match mag {
            Some(m) => {
                if m > 0x7fffffffffffffffu64 {
                    None
                } else {
                    proof {
                        assert(parse_digits(s@, 0).1.len() < s@.len()) by {
                            assert(parse_digits(s@, 0) == parse_digits(
                                s@.skip(1),
                                digit_val(s@[0]),
                            ));
                            lemma_parse_digits_rest(s@.skip(1), digit_val(s@[0]));
                        }
                    }
                    Some((m as i64, rest))
                }
            },
            None => None,
        }
    } else {
        None
    }
}

/// The rest of a digit run is never longer than the input.
proof fn lemma_parse_digits_rest(s: Seq<char>, acc: int)
    ensures
        parse_digits(s, acc).1.len() <= s.len(),
    decreases s.len(),
{
    if s.len() > 0 && is_digit(s[0]) {
        lemma_parse_digits_rest(s.skip(1), acc * 10 + digit_val(s[0]));
    }
}

/// Reads a quoted-string body up to its closing quote.
fn qbody_exec(s: &str) -> (r: Option<(String, String)>)
    ensures
        parse_qbody(s@) matches Some(p) ==> (r matches Some(e) && e.0@ == p.0 && e.1@ == p.1),
        parse_qbody(s@) is None ==> r is None,
        r matches Some(e) ==> e.1@.len() < s@.len(),
    decreases s@.len(),
{
    let n = s.unicode_len();
    if n == 0 {
        return None;
    }
    let c = s.get_char(0);
    if c == '\\' {
        if n < 2 {
            return None;
        }
        let d = s.get_char(1);
        let tail = s.substring_char(2, n);
        proof {
            assert(tail@ =~= s@.skip(2));
        }
        match qbody_exec(tail) {
            Some(p) => {
                let mut outp = String::new();
                outp.push(d);
                outp.append(p.0.as_str());
                proof {
                    assert(outp@ =~= seq![s@[1]] + p.0@);
                }
                Some((outp, p.1))
            },
            None => None,
        }
    } else if c == '"' {
        let rest = s.substring_char(1, n).to_owned();
        proof {
            assert(rest@ =~= s@.skip(1));
            assert(parse_qbody(s@) matches Some(p) && p.0 =~= Seq::<char>::empty() && p.1
                == s@.skip(1));
        }
        Some((String::new(), rest))
    } else {
        let tail = s.substring_char(1, n);
        proof {
            assert(tail@ =~= s@.skip(1));
        }
        match qbody_exec(tail) {
            Some(p) => {
                let mut outp = String::new();
                outp.push(c);
                outp.append(p.0.as_str());
                proof {
                    assert(outp@ =~= seq![s@[0]] + p.0@);
                }
                Some((outp, p.1))
            },
            None => None,
        }
    }
}

/// Reads a quoted string: quote, body, quote.
fn quoted_exec(s: &str) -> (r: Option<(String, String)>)
    ensures
        parse_quoted(s@) matches Some(p) ==> (r matches Some(e) && e.0@ == p.0 && e.1@ == p.1),
        parse_quoted(s@) is None ==> r is None,
        r matches Some(e) ==> e.1@.len() < s@.len(),
{
    let n = s.unicode_len();
    if n == 0 {
        return None;
    }
    if s.get_char(0) != '"' {
        return None;
    }
    let tail = s.substring_char(1, n);
    proof {
        assert(tail@ =~= s@.skip(1));
    }
    qbody_exec(tail)
}

/// Reads the comma-separated quoted segments up to the semicolon.
fn seg_list_exec(s: &str) -> (r: Option<(Vec<String>, String)>)
    ensures
        parse_seg_list(s@) matches Some(p) ==> (r matches Some(e) && e.0.deep_view() == p.0
            && e.1@ == p.1),
        parse_seg_list(s@) is None ==> r is None,
        r matches Some(e) ==> e.1@.len() < s@.len(),
    decreases s@.len(),
{
    match quoted_exec(s) {
        Some(p) => {
            let rn = p.1.as_str().unicode_len();
            if rn > 0 && p.1.as_str().get_char(0) == ',' {
                let tail = p.1.as_str().substring_char(1, rn);
                proof {
                    assert(tail@ =~= p.1@.skip(1));
                }
                match seg_list_exec(tail) {
                    Some(q) => {
                        let mut segs: Vec<String> = Vec::new();
                        segs.push(p.0);
                        let mut qsegs = q.0;
                        segs.append(&mut qsegs);
                        proof {
                            let sp = parse_seg_list(s@);
                            let sub = parse_seg_list(p.1@.skip(1));
                            assert(sp matches Some(x) && x.0 =~= segs.deep_view() && x.1
                                == q.1@) by {
                                assert(sub matches Some(y) && segs.deep_view() =~= seq![p.0@]
                                    + y.0);
                            }
                        }
                        Some((segs, q.1))
                    },
                    None => None,
                }
            } else if rn > 0 && p.1.as_str().get_char(0) == ';' {
                let rest = p.1.as_str().substring_char(1, rn).to_owned();
                let mut segs: Vec<String> = Vec::new();
                segs.push(p.0);
                proof {
                    assert(rest@ =~= p.1@.skip(1));
                    let pq = parse_quoted(s@);
                    assert(pq matches Some(y) && segs.deep_view() =~= seq![y.0]);
                }
                Some((segs, rest))
            } else {
                None
            }
        },
        None => None,
    }
}

impl Type {


    /// Reads a display form back into a type; `None` for text that no type
    /// displays to.
    pub fn from_display_form(s: &str) -> (r: Option<Type>)
        ensures
            parse_display(s@) matches Some(t) ==> (dims_ok(t) ==> (r matches Some(e) && e@
                == t)),
            parse_display(s@) is None ==> r is None,
            r matches Some(e) ==> parse_display(s@) == Some(e@),
        decreases s@.len(),
    {
        let n = s.unicode_len();
        if n == 0 {
            return None;
        }
        let c = s.get_char(0);
        if c == '?' {
            let tail = s.substring_char(1, n);
            proof {
                assert(tail@ =~= s@.skip(1));
            }
            match Self::from_display_form(tail) {
                Some(t) => {
                    let r2 = Type::Nullable(Box::new(t));
                    proof {
                        assert(parse_display(s@) == Some(r2@));
                    }
                    Some(r2)
                },
                None => None,
            }
        } else if c == '[' {
            let tail = s.substring_char(1, n);
            proof {
                assert(tail@ =~= s@.skip(1));
            }
            match int_exec(tail) {
                Some(pr) => {
                    let (dim, rest) = pr;
                    let rn = rest.as_str().unicode_len();
                    if rn > 0 && rest.as_str().get_char(0) == ']' {
                        let rtail = rest.as_str().substring_char(1, rn);
                        proof {
                            assert(rtail@ =~= rest@.skip(1));
                        }
                        match Self::from_display_form(rtail) {
                            Some(t) => {
                                let r2 = Type::Array { elem: Box::new(t), dim };
                                proof {
                                    assert(parse_display(s@) == Some(r2@));
                                }
                                Some(r2)
                            },
                            None => None,
                        }
                    } else {
                        None
                    }
                },
                None => None,
            }
        } else if c == '{' {
            let rest0 = s.substring_char(1, n);
            proof {
                assert(rest0@ =~= s@.skip(1));
            }
            let rn0 = rest0.unicode_len();
            if rn0 > 0 && rest0.get_char(0) == ';' {
                let after = rest0.substring_char(1, rn0);
                proof {
                    assert(after@ =~= rest0@.skip(1));
                }
                match quoted_exec(after) {
                    Some(p) => {
                        let pn = p.1.as_str().unicode_len();
                        if pn == 1 && p.1.as_str().get_char(0) == '}' {
                            let mp: Vec<String> = Vec::new();
                            let r2 = Type::UserDefined { modpath: mp, name: p.0 };
                            proof {
                                assert(r2@ matches TypeV::UserDefined { modpath: m2, .. } && m2
                                    =~= Seq::<Seq<char>>::empty());
                                assert(parse_display(s@) == Some(r2@));
                            }
                            Some(r2)
                        } else {
                            None
                        }
                    },
                    None => None,
                }
            } else {
                match seg_list_exec(rest0) {
                    Some(q) => {
                        match quoted_exec(q.1.as_str()) {
                            Some(p) => {
                                let pn = p.1.as_str().unicode_len();
                                if pn == 1 && p.1.as_str().get_char(0) == '}' {
                                    let r2 = Type::UserDefined { modpath: q.0, name: p.0 };
                                    proof {
                                        assert(parse_display(s@) == Some(r2@));
                                    }
                                    Some(r2)
                                } else {
                                    None
                                }
                            },
                            None => None,
                        }
                    },
                    None => None,
                }
            }
        } else if c == '(' {
            let rest0 = s.substring_char(1, n);
            proof {
                assert(rest0@ =~= s@.skip(1));
            }
            match quoted_exec(rest0) {
                Some(a) => {
                    let an = a.1.as_str().unicode_len();
                    if an > 0 && a.1.as_str().get_char(0) == ',' {
                        let after = a.1.as_str().substring_char(1, an);
                        proof {
                            assert(after@ =~= a.1@.skip(1));
                        }
                        match quoted_exec(after) {
                            Some(b) => {
                                let bn = b.1.as_str().unicode_len();
                                if bn == 1 && b.1.as_str().get_char(0) == ')' {
                                    let r2 = Type::Other { schema: a.0, name: b.0 };
                                    proof {
                                        assert(parse_display(s@) == Some(r2@));
                                    }
                                    Some(r2)
                                } else {
                                    None
                                }
                            },
                            None => None,
                        }
                    } else {
                        None
                    }
                },
                None => None,
            }
        } else {
            let table = Type::names();
            let mut i: usize = 0;
            while i < table.len()
                invariant
                    s@.len() > 0,
                    s@[0] != '?' && s@[0] != '[' && s@[0] != '{' && s@[0] != '(',
                    table@.len() == pg_name_table().len(),
                    forall|j: int|
                        0 <= j < table@.len() ==> (#[trigger] table@[j]).0@ == pg_name_table()[j].0
                            && table@[j].1@ == pg_name_table()[j].1,
                    i <= table@.len(),
                    forall|j: int| 0 <= j < i ==> pg_names()[j] != s@,
                decreases table@.len() - i,
            {
                proof {
                    assert(pg_names()[i as int] == pg_name_table()[i as int].0);
                }
                if str_eq(table[i].0, s) {
                    proof {
                        crate::strutil::lemma_index_of_name(pg_names(), s@);
                        assert(index_of_name(pg_names(), s@) == i as int) by {
                            let f = index_of_name(pg_names(), s@);
                            if f < 0 {
                                assert(pg_names()[i as int] != s@);
                            } else if f < i {
                                assert(pg_names()[f] != s@);
                            } else if f > i {
                                assert(pg_names()[i as int] != s@);
                            }
                        }
                    }
                    return Some(table[i].1.clone());
                }
                i = i + 1;
            }
            proof {
                crate::strutil::lemma_index_of_name(pg_names(), s@);
                assert(index_of_name(pg_names(), s@) < 0) by {
                    let f = index_of_name(pg_names(), s@);
                    if f >= 0 {
                        assert(pg_names()[f] != s@);
                    }
                }
            }
            None
        }
    }

    /// The display form of this type.
    pub fn to_display_form(&self) -> (r: String)
        ensures
            r@ == display_of(self@),
        decreases *self,
    {
        match self {
            Type::Nullable(inner) => {
                let mut out = String::new();
                out.push('?');
                let f = inner.to_display_form();
                out.append(f.as_str());
                proof {
                    assert(out@ =~= display_of(self@));
                }
                out
            },
            Type::Array { elem, dim } => {
                let mut out = String::new();
                out.push('[');
                int_into(&mut out, *dim);
                out.push(']');
                let f = elem.to_display_form();
                out.append(f.as_str());
                proof {
                    assert(out@ =~= display_of(self@));
                }
                out
            },
            Type::UserDefined { modpath, name } => {
                let mut out = String::new();
                out.push('{');
                let mut i: usize = 0;
                proof {
                    assert(modpath.deep_view().take(0) =~= Seq::<Seq<char>>::empty());
                    assert(out@ =~= seq!['{'] + segs_display(modpath.deep_view().take(0)));
                }
                while i < modpath.len()
                    invariant
                        i <= modpath@.len(),
                        modpath.deep_view().len() == modpath@.len(),
                        out@ == seq!['{'] + segs_display(modpath.deep_view().take(i as int)),
                    decreases modpath@.len() - i,
                {
                    proof {
                        assert(modpath.deep_view().take(i + 1).drop_last()
                            =~= modpath.deep_view().take(i as int));
                        assert(modpath.deep_view().take(i + 1).last()
                            == modpath.deep_view()[i as int]);
                        assert(modpath.deep_view()[i as int] == modpath@[i as int]@);
                    }
                    if i > 0 {
                        out.push(',');
                    }
                    qstr_into(&mut out, modpath[i].as_str());
                    proof {
                        if i == 0 {
                            assert(out@ =~= seq!['{'] + segs_display(
                                modpath.deep_view().take(1),
                            ));
                        } else {
                            assert(out@ =~= seq!['{'] + segs_display(
                                modpath.deep_view().take(i + 1),
                            ));
                        }
                    }
                    i = i + 1;
                }
                proof {
                    assert(modpath.deep_view().take(modpath@.len() as int)
                        =~= modpath.deep_view());
                }
                out.push(';');
                qstr_into(&mut out, name.as_str());
                out.push('}');
                proof {
                    assert(out@ =~= display_of(self@));
                }
                out
            },
            Type::Other { schema, name } => {
                let mut out = String::new();
                out.push('(');
                qstr_into(&mut out, schema.as_str());
                out.push(',');
                qstr_into(&mut out, name.as_str());
                out.push(')');
                proof {
                    assert(out@ =~= display_of(self@));
                }
                out
            },
            Type::Any => String::from_str("any"),
            Type::AnyArray => String::from_str("anyarray"),
            Type::AnyCompatible => String::from_str("anycompatible"),
            Type::AnyCompatibleArray => String::from_str("anycompatiblearray"),
            Type::AnyCompatibleMultiRange => String::from_str("anycompatiblemultirange"),
            Type::AnyCompatibleNonArray => String::from_str("anycompatiblenonarray"),
            Type::AnycompatibleRange => String::from_str("anycompatiblerange"),
            Type::AnyElement => String::from_str("anyelement"),
            Type::AnyEnum => String::from_str("anyenum"),
            Type::AnyMultiRange => String::from_str("anymultirange"),
            Type::AnyNonArray => String::from_str("anynonarray"),
            Type::AnyRange => String::from_str("anyrange"),
            Type::Bit => String::from_str("bit"),
            Type::BitVarying => String::from_str("bitvarying"),
            Type::Bool => String::from_str("bool"),
            Type::Box => String::from_str("box"),
            Type::BpChar => String::from_str("bpchar"),
            Type::Bytea => String::from_str("bytea"),
            Type::Cid => String::from_str("cid"),
            Type::Cidr => String::from_str("cidr"),
            Type::Circle => String::from_str("circle"),
            Type::Cstring => String::from_str("cstring"),
            Type::Date => String::from_str("date"),
            Type::DateMultiRange => String::from_str("datemultirange"),
            Type::DateRange => String::from_str("daterange"),
            Type::DateTz => String::from_str("datetz"),
            Type::Decimal => String::from_str("decimal"),
            Type::Float4 => String::from_str("float4"),
            Type::Float8 => String::from_str("float8"),
            Type::Inet => String::from_str("inet"),
            Type::Int2 => String::from_str("int2"),
            Type::Int4 => String::from_str("int4"),
            Type::Int4MultiRange => String::from_str("int4multirange"),
            Type::Int4Range => String::from_str("int4range"),
            Type::Int8 => String::from_str("int8"),
            Type::Int8MultiRange => String::from_str("int8multirange"),
            Type::Int8Range => String::from_str("int8range"),
            Type::Interval => String::from_str("interval"),
            Type::Json => String::from_str("json"),
            Type::Jsonb => String::from_str("jsonb"),
            Type::JsonPath => String::from_str("jsonpath"),
            Type::Line => String::from_str("line"),
            Type::LSeg => String::from_str("lseg"),
            Type::MacAddr => String::from_str("macaddr"),
            Type::MacAddr8 => String::from_str("macaddr8"),
            Type::Money => String::from_str("money"),
            Type::Numeric => String::from_str("numeric"),
            Type::NumMultiRange => String::from_str("nummultirange"),
            Type::NumRange => String::from_str("numrange"),
            Type::Path => String::from_str("path"),
            Type::Point => String::from_str("point"),
            Type::Polygon => String::from_str("polygon"),
            Type::Range => String::from_str("range"),
            Type::Record => String::from_str("record"),
            Type::Serial2 => String::from_str("serial2"),
            Type::Serial4 => String::from_str("serial4"),
            Type::Serial8 => String::from_str("serial8"),
            Type::Text => String::from_str("text"),
            Type::Time => String::from_str("time"),
            Type::Timestamp => String::from_str("timestamp"),
            Type::TimestampTz => String::from_str("timestamptz"),
            Type::TimeTz => String::from_str("timetz"),
            Type::TsMultiRange => String::from_str("tsmultirange"),
            Type::TsQuery => String::from_str("tsquery"),
            Type::TsRange => String::from_str("tsrange"),
            Type::TsTzMultiRange => String::from_str("tstzmultirange"),
            Type::TsTzRange => String::from_str("tstzrange"),
            Type::TsVector => String::from_str("tsvector"),
            Type::Unknown => String::from_str("unknown"),
            Type::Uuid => String::from_str("uuid"),
            Type::VarChar => String::from_str("varchar"),
            Type::Void => String::from_str("void"),
            Type::Xml => String::from_str("xml"),
        }
    }
}

/// A quoted body followed by anything parses back to exactly that body.
proof fn lemma_qbody_round(s: Seq<char>, rest: Seq<char>)
    ensures
        parse_qbody(esc(s) + seq!['"'] + rest) == Some((s, rest)),
    decreases s.len(),
{
    let full = esc(s) + seq!['"'] + rest;
    if s.len() == 0 {
        assert(esc(s) =~= Seq::<char>::empty());
        assert(full =~= seq!['"'] + rest);
        assert(full[0] == '"');
        assert(full.skip(1) =~= rest);
        assert(parse_qbody(full) == Some((Seq::<char>::empty(), rest)));
        assert(s =~= Seq::<char>::empty());
    } else {
        let c = s[0];
        lemma_qbody_round(s.skip(1), rest);
        let sub = esc(s.skip(1)) + seq!['"'] + rest;
        if c == '"' || c == '\\' {
            assert(esc(s) =~= seq!['\\', c] + esc(s.skip(1)));
            assert(full =~= seq!['\\', c] + sub);
            assert(full[0] == '\\');
            assert(full[1] == c);
            assert(full.len() >= 2);
            assert(full.skip(2) =~= sub);
            assert(parse_qbody(full) matches Some(p) && p.0 =~= s && p.1 == rest) by {
                assert(seq![c] + s.skip(1) =~= s);
            }
        } else {
            assert(esc(s) =~= seq![c] + esc(s.skip(1)));
            assert(full =~= seq![c] + sub);
            assert(full[0] == c);
            assert(full.skip(1) =~= sub);
            assert(parse_qbody(full) matches Some(p) && p.0 =~= s && p.1 == rest) by {
                assert(seq![c] + s.skip(1) =~= s);
            }
        }
    }
}

/// A quoted string followed by anything parses back to exactly its body.
proof fn lemma_quoted_round(s: Seq<char>, rest: Seq<char>)
    ensures
        parse_quoted(qstr(s) + rest) == Some((s, rest)),
{
    let full = qstr(s) + rest;
    assert(full[0] == '"');
    assert(full.len() > 0);
    assert(full.skip(1) =~= esc(s) + seq!['"'] + rest);
    lemma_qbody_round(s, rest);
}

/// Ten to the `k`.
pub open spec fn pow10(k: nat) -> int
    decreases k,
{
    if k == 0 {
        1
    } else {
        10 * pow10((k - 1) as nat)
    }
}

/// Every character that `dec_digits` writes is a digit.
proof fn lemma_dec_digits_are_digits(n: int)
    requires
        n >= 0,
    ensures
        dec_digits(n).len() >= 1,
        forall|i: int| 0 <= i < dec_digits(n).len() ==> is_digit(#[trigger] dec_digits(n)[i])
            && digit_val(dec_digits(n)[i]) < 10,
    decreases n,
{
    if n < 10 {
        assert(is_digit(digit_char(n)) && digit_val(digit_char(n)) < 10);
    } else {
        lemma_dec_digits_are_digits(n / 10);
        assert(is_digit(digit_char(n % 10)) && digit_val(digit_char(n % 10)) < 10);
        assert forall|i: int|
            0 <= i < dec_digits(n).len() implies is_digit(#[trigger] dec_digits(n)[i])
            && digit_val(dec_digits(n)[i]) < 10 by {
            if i < dec_digits(n / 10).len() {
                assert(dec_digits(n)[i] == dec_digits(n / 10)[i]);
            } else {
                assert(dec_digits(n)[i] == digit_char(n % 10));
            }
        }
    }
}

/// Reading the decimal digits of `n` shifts the accumulator by their count
/// and adds `n`.
proof fn lemma_parse_dec(n: int, suffix: Seq<char>, acc: int)
    requires
        n >= 0,
    ensures
        parse_digits(dec_digits(n) + suffix, acc) == parse_digits(
            suffix,
            acc * pow10(dec_digits(n).len()) + n,
        ),
    decreases n,
{
    lemma_dec_digits_are_digits(n);
    let full = dec_digits(n) + suffix;
    if n < 10 {
        assert(dec_digits(n) =~= seq![digit_char(n)]);
        assert(full[0] == digit_char(n));
        assert(is_digit(full[0]));
        assert(digit_val(digit_char(n)) == n);
        assert(full.skip(1) =~= suffix);
        assert(pow10(0) == 1);
        assert(pow10(1) == 10);
        assert(parse_digits(full, acc) == parse_digits(suffix, acc * 10 + n));
    } else {
        let hd = dec_digits(n / 10);
        let dm = digit_char(n % 10);
        assert(dec_digits(n) =~= hd + seq![dm]);
        assert(full =~= hd + (seq![dm] + suffix));
        lemma_parse_dec(n / 10, seq![dm] + suffix, acc);
        let acc1 = acc * pow10(hd.len()) + n / 10;
        assert(parse_digits(full, acc) == parse_digits(seq![dm] + suffix, acc1));
        assert((seq![dm] + suffix)[0] == dm);
        assert(is_digit(dm));
        assert((seq![dm] + suffix).skip(1) =~= suffix);
        assert(digit_val(dm) == n % 10);
        assert(parse_digits(seq![dm] + suffix, acc1) == parse_digits(
            suffix,
            acc1 * 10 + n % 10,
        ));
        assert(dec_digits(n).len() == hd.len() + 1);
        assert(pow10(dec_digits(n).len()) == 10 * pow10(hd.len()));
        assert(acc1 * 10 + n % 10 == acc * (10 * pow10(hd.len())) + n) by {
            assert((acc * pow10(hd.len()) + n / 10) * 10 == acc * pow10(hd.len()) * 10 + (n / 10)
                * 10) by (nonlinear_arith);
            assert(acc * pow10(hd.len()) * 10 == acc * (10 * pow10(hd.len()))) by (nonlinear_arith);
            assert((n / 10) * 10 + n % 10 == n);
        }
    }
}

/// A signed number followed by a non-digit parses back exactly.
proof fn lemma_int_round(d: int, rest: Seq<char>)
    requires
        rest.len() > 0,
        !is_digit(rest[0]),
        rest[0] != '-',
    ensures
        parse_int(int_digits(d) + rest) == Some((d, rest)),
{
    let full = int_digits(d) + rest;
    if d < 0 {
        lemma_dec_digits_are_digits(-d);
        assert(int_digits(d) =~= seq!['-'] + dec_digits(-d));
        assert(full[0] == '-');
        assert(!is_digit('-'));
        assert(full[1] == dec_digits(-d)[0]);
        assert(is_digit(full[1]));
        assert(full.skip(1) =~= dec_digits(-d) + rest);
        lemma_parse_dec(-d, rest, 0);
        assert(parse_digits(rest, 0 * pow10(dec_digits(-d).len()) + (-d)) == ((-d), rest));
        assert(parse_int(full) == Some((d, rest)));
    } else {
        lemma_dec_digits_are_digits(d);
        assert(int_digits(d) == dec_digits(d));
        assert(full[0] == dec_digits(d)[0]);
        assert(is_digit(full[0]));
        assert(full[0] != '-');
        lemma_parse_dec(d, rest, 0);
        assert(parse_digits(rest, 0 * pow10(dec_digits(d).len()) + d) == (d, rest));
        assert(parse_digits(full, 0) == (d, rest)) by {
            assert(full =~= dec_digits(d) + rest);
        }
        assert(parse_int(full) == Some((d, rest)));
    }
}

/// The segment list display decomposes from the front.
proof fn lemma_segs_front(segs: Seq<Seq<char>>)
    requires
        segs.len() >= 2,
    ensures
        segs_display(segs) == qstr(segs[0]) + seq![','] + segs_display(segs.drop_first()),
    decreases segs.len(),
{
    if segs.len() == 2 {
        assert(segs.drop_last() =~= seq![segs[0]]);
        assert(segs.drop_first() =~= seq![segs[1]]);
        assert(segs_display(seq![segs[0]]) == qstr(segs[0]));
        assert(segs_display(seq![segs[1]]) == qstr(segs[1]));
        assert(segs.last() == segs[1]);
        assert(qstr(segs[0]) + seq![','] + qstr(segs[1]) =~= segs_display(segs));
    } else {
        let dl = segs.drop_last();
        lemma_segs_front(dl);
        assert(dl[0] == segs[0]);
        assert(segs.drop_first().drop_last() =~= dl.drop_first());
        assert(segs.drop_first().len() >= 2);
        assert(segs.drop_first().last() == segs.last());
        assert(segs_display(segs.drop_first()) == segs_display(dl.drop_first()) + seq![',']
            + qstr(segs.last())) by {
            assert(segs_display(segs.drop_first()) == segs_display(segs.drop_first().drop_last())
                + seq![','] + qstr(segs.drop_first().last()));
        }
        assert(segs_display(segs) == (qstr(segs[0]) + seq![','] + segs_display(dl.drop_first()))
            + seq![','] + qstr(segs.last()));
        assert((qstr(segs[0]) + seq![','] + segs_display(dl.drop_first())) + seq![','] + qstr(
            segs.last(),
        ) =~= qstr(segs[0]) + seq![','] + (segs_display(dl.drop_first()) + seq![','] + qstr(
            segs.last(),
        )));
    }
}

/// A non-empty segment display followed by the semicolon parses back to the
/// segments.
proof fn lemma_segs_round(segs: Seq<Seq<char>>, rest: Seq<char>)
    requires
        segs.len() >= 1,
    ensures
        parse_seg_list(segs_display(segs) + seq![';'] + rest) == Some((segs, rest)),
    decreases segs.len(),
{
    let full = segs_display(segs) + seq![';'] + rest;
    if segs.len() == 1 {
        assert(segs_display(segs) == qstr(segs[0]));
        assert(full =~= qstr(segs[0]) + (seq![';'] + rest));
        lemma_quoted_round(segs[0], seq![';'] + rest);
        let p = parse_quoted(full);
        assert(p matches Some(q) && q.0 == segs[0] && q.1 == seq![';'] + rest);
        assert((seq![';'] + rest)[0] == ';');
        assert(';' != ',');
        assert((seq![';'] + rest).skip(1) =~= rest);
        assert(parse_seg_list(full) matches Some(q) && q.0 =~= segs && q.1 == rest);
    } else {
        lemma_segs_front(segs);
        assert(full =~= qstr(segs[0]) + (seq![','] + (segs_display(segs.drop_first())
            + seq![';'] + rest)));
        lemma_quoted_round(segs[0], seq![','] + (segs_display(segs.drop_first()) + seq![';']
            + rest));
        let after = seq![','] + (segs_display(segs.drop_first()) + seq![';'] + rest);
        assert(after[0] == ',');
        assert(after.skip(1) =~= segs_display(segs.drop_first()) + seq![';'] + rest);
        lemma_segs_round(segs.drop_first(), rest);
        assert(after.len() - 1 < full.len()) by {
            assert(qstr(segs[0]).len() >= 2);
        }
        assert(parse_seg_list(full) matches Some(q) && q.0 =~= segs && q.1 == rest) by {
            assert(seq![segs[0]] + segs.drop_first() =~= segs);
        }
    }
}

/// Reading a display form back yields the type it came from, for every
/// constructible canonical type, nested wrappers included.
#[verifier::rlimit(100)]
#[verifier::spinoff_prover]
pub proof fn lemma_display_round_trip(t: TypeV)
    ensures
        parse_display(display_of(t)) == Some(t),
    decreases t,
{
    crate::table::lemma_pg_table_sorted();
    assert forall|i: int, j: int|
        0 <= i < j < pg_names().len() implies crate::strutil::lex_lt(
        #[trigger] pg_names()[i],
        #[trigger] pg_names()[j],
    ) by {
        assert(pg_names()[i] == pg_name_table()[i].0);
        assert(pg_names()[j] == pg_name_table()[j].0);
    }
    crate::ordmap::lemma_sorted_distinct(pg_names());
    match t {
        TypeV::Nullable(inner) => {
            lemma_display_round_trip(*inner);
            let full = display_of(t);
            assert(full =~= seq!['?'] + display_of(*inner));
            assert(full[0] == '?');
            assert(full.skip(1) =~= display_of(*inner));
            assert(TypeV::Nullable(Box::new(*inner)) == t);
        },
        TypeV::Array { elem, dim } => {
            lemma_display_round_trip(*elem);
            let rest = seq![']'] + display_of(*elem);
            let full = display_of(t);
            assert(full =~= seq!['['] + (int_digits(dim) + rest));
            assert(full[0] == '[');
            assert(full.skip(1) =~= int_digits(dim) + rest);
            assert(rest[0] == ']');
            assert(!is_digit(']') && ']' != '-');
            lemma_int_round(dim, rest);
            if dim < 0 {
                lemma_dec_digits_are_digits(-dim);
            } else {
                lemma_dec_digits_are_digits(dim);
            }
            assert(int_digits(dim).len() >= 1);
            assert(rest.len() - 1 < full.len());
            assert(rest.skip(1) =~= display_of(*elem));
            assert(TypeV::Array { elem: Box::new(*elem), dim } == t);
        },
        TypeV::UserDefined { modpath, name } => {
            let tailp = qstr(name) + seq!['}'];
            let full = display_of(t);
            assert(full =~= seq!['{'] + (segs_display(modpath) + seq![';'] + tailp)) by {
                assert(full == seq!['{'] + segs_display(modpath) + seq![';'] + qstr(name)
                    + seq!['}']);
            }
            assert(full[0] == '{');
            let rest0 = full.skip(1);
            assert(rest0 =~= segs_display(modpath) + seq![';'] + tailp);
            if modpath.len() == 0 {
                assert(segs_display(modpath) =~= Seq::<char>::empty());
                assert(rest0 =~= seq![';'] + tailp);
                assert(rest0[0] == ';');
                assert(rest0.skip(1) =~= qstr(name) + seq!['}']);
                lemma_quoted_round(name, seq!['}']);
                assert(seq!['}'].len() == 1 && seq!['}'][0] == '}');
                assert(TypeV::UserDefined { modpath: Seq::empty(), name } == t) by {
                    assert(modpath =~= Seq::<Seq<char>>::empty());
                }
            } else {
                assert(rest0[0] == '"') by {
                    if modpath.len() == 1 {
                        assert(segs_display(modpath) == qstr(modpath[0]));
                        assert(qstr(modpath[0])[0] == '"');
                    } else {
                        lemma_segs_front(modpath);
                        assert(segs_display(modpath)[0] == qstr(modpath[0])[0]);
                        assert(qstr(modpath[0])[0] == '"');
                    }
                    assert(rest0[0] == segs_display(modpath)[0]);
                }
                lemma_segs_round(modpath, tailp);
                assert(rest0 =~= segs_display(modpath) + seq![';'] + tailp);
                lemma_quoted_round(name, seq!['}']);
                assert(seq!['}'].len() == 1 && seq!['}'][0] == '}');
            }
        },
        TypeV::Other { schema, name } => {
            let full = display_of(t);
            let mid = seq![','] + (qstr(name) + seq![')']);
            assert(full =~= seq!['('] + (qstr(schema) + mid)) by {
                assert(full == seq!['('] + qstr(schema) + seq![','] + qstr(name) + seq![')']);
            }
            assert(full[0] == '(');
            assert(full.skip(1) =~= qstr(schema) + mid);
            lemma_quoted_round(schema, mid);
            assert(mid[0] == ',');
            assert(mid.skip(1) =~= qstr(name) + seq![')']);
            lemma_quoted_round(name, seq![')']);
            assert(seq![')'].len() == 1 && seq![')'][0] == ')');
        },

        TypeV::Any => {
            reveal_strlit("any");
            assert(pg_names()[0] == pg_row(0).0);
            crate::ordmap::lemma_index_witness(pg_names(), "any"@, 0);
            assert(parse_display("any"@) == Some(t));
        },
        TypeV::AnyArray => {
            reveal_strlit("anyarray");
            assert(pg_names()[1] == pg_row(1).0);
            crate::ordmap::lemma_index_witness(pg_names(), "anyarray"@, 1);
            assert(parse_display("anyarray"@) == Some(t));
        },
        TypeV::AnyCompatible => {
            reveal_strlit("anycompatible");
            assert(pg_names()[2] == pg_row(2).0);
            crate::ordmap::lemma_index_witness(pg_names(), "anycompatible"@, 2);
            assert(parse_display("anycompatible"@) == Some(t));
        },
        TypeV::AnyCompatibleArray => {
            reveal_strlit("anycompatiblearray");
            assert(pg_names()[3] == pg_row(3).0);
            crate::ordmap::lemma_index_witness(pg_names(), "anycompatiblearray"@, 3);
            assert(parse_display("anycompatiblearray"@) == Some(t));
        },
        TypeV::AnyCompatibleMultiRange => {
            reveal_strlit("anycompatiblemultirange");
            assert(pg_names()[4] == pg_row(4).0);
            crate::ordmap::lemma_index_witness(pg_names(), "anycompatiblemultirange"@, 4);
            assert(parse_display("anycompatiblemultirange"@) == Some(t));
        },
        TypeV::AnyCompatibleNonArray => {
            reveal_strlit("anycompatiblenonarray");
            assert(pg_names()[5] == pg_row(5).0);
            crate::ordmap::lemma_index_witness(pg_names(), "anycompatiblenonarray"@, 5);
            assert(parse_display("anycompatiblenonarray"@) == Some(t));
        },
        TypeV::AnycompatibleRange => {
            reveal_strlit("anycompatiblerange");
            assert(pg_names()[6] == pg_row(6).0);
            crate::ordmap::lemma_index_witness(pg_names(), "anycompatiblerange"@, 6);
            assert(parse_display("anycompatiblerange"@) == Some(t));
        },
        TypeV::AnyElement => {
            reveal_strlit("anyelement");
            assert(pg_names()[7] == pg_row(7).0);
            crate::ordmap::lemma_index_witness(pg_names(), "anyelement"@, 7);
            assert(parse_display("anyelement"@) == Some(t));
        },
        TypeV::AnyEnum => {
            reveal_strlit("anyenum");
            assert(pg_names()[8] == pg_row(8).0);
            crate::ordmap::lemma_index_witness(pg_names(), "anyenum"@, 8);
            assert(parse_display("anyenum"@) == Some(t));
        },
        TypeV::AnyMultiRange => {
            reveal_strlit("anymultirange");
            assert(pg_names()[9] == pg_row(9).0);
            crate::ordmap::lemma_index_witness(pg_names(), "anymultirange"@, 9);
            assert(parse_display("anymultirange"@) == Some(t));
        },
        TypeV::AnyNonArray => {
            reveal_strlit("anynonarray");
            assert(pg_names()[10] == pg_row(10).0);
            crate::ordmap::lemma_index_witness(pg_names(), "anynonarray"@, 10);
            assert(parse_display("anynonarray"@) == Some(t));
        },
        TypeV::AnyRange => {
            reveal_strlit("anyrange");
            assert(pg_names()[11] == pg_row(11).0);
            crate::ordmap::lemma_index_witness(pg_names(), "anyrange"@, 11);
            assert(parse_display("anyrange"@) == Some(t));
        },
        TypeV::Bit => {
            reveal_strlit("bit");
            assert(pg_names()[12] == pg_row(12).0);
            crate::ordmap::lemma_index_witness(pg_names(), "bit"@, 12);
            assert(parse_display("bit"@) == Some(t));
        },
        TypeV::BitVarying => {
            reveal_strlit("bitvarying");
            assert(pg_names()[13] == pg_row(13).0);
            crate::ordmap::lemma_index_witness(pg_names(), "bitvarying"@, 13);
            assert(parse_display("bitvarying"@) == Some(t));
        },
        TypeV::Bool => {
            reveal_strlit("bool");
            assert(pg_names()[14] == pg_row(14).0);
            crate::ordmap::lemma_index_witness(pg_names(), "bool"@, 14);
            assert(parse_display("bool"@) == Some(t));
        },
        TypeV::Box => {
            reveal_strlit("box");
            assert(pg_names()[15] == pg_row(15).0);
            crate::ordmap::lemma_index_witness(pg_names(), "box"@, 15);
            assert(parse_display("box"@) == Some(t));
        },
        TypeV::BpChar => {
            reveal_strlit("bpchar");
            assert(pg_names()[16] == pg_row(16).0);
            crate::ordmap::lemma_index_witness(pg_names(), "bpchar"@, 16);
            assert(parse_display("bpchar"@) == Some(t));
        },
        TypeV::Bytea => {
            reveal_strlit("bytea");
            assert(pg_names()[17] == pg_row(17).0);
            crate::ordmap::lemma_index_witness(pg_names(), "bytea"@, 17);
            assert(parse_display("bytea"@) == Some(t));
        },
        TypeV::Cid => {
            reveal_strlit("cid");
            assert(pg_names()[18] == pg_row(18).0);
            crate::ordmap::lemma_index_witness(pg_names(), "cid"@, 18);
            assert(parse_display("cid"@) == Some(t));
        },
        TypeV::Cidr => {
            reveal_strlit("cidr");
            assert(pg_names()[19] == pg_row(19).0);
            crate::ordmap::lemma_index_witness(pg_names(), "cidr"@, 19);
            assert(parse_display("cidr"@) == Some(t));
        },
        TypeV::Circle => {
            reveal_strlit("circle");
            assert(pg_names()[20] == pg_row(20).0);
            crate::ordmap::lemma_index_witness(pg_names(), "circle"@, 20);
            assert(parse_display("circle"@) == Some(t));
        },
        TypeV::Cstring => {
            reveal_strlit("cstring");
            assert(pg_names()[21] == pg_row(21).0);
            crate::ordmap::lemma_index_witness(pg_names(), "cstring"@, 21);
            assert(parse_display("cstring"@) == Some(t));
        },
        TypeV::Date => {
            reveal_strlit("date");
            assert(pg_names()[22] == pg_row(22).0);
            crate::ordmap::lemma_index_witness(pg_names(), "date"@, 22);
            assert(parse_display("date"@) == Some(t));
        },
        TypeV::DateMultiRange => {
            reveal_strlit("datemultirange");
            assert(pg_names()[23] == pg_row(23).0);
            crate::ordmap::lemma_index_witness(pg_names(), "datemultirange"@, 23);
            assert(parse_display("datemultirange"@) == Some(t));
        },
        TypeV::DateRange => {
            reveal_strlit("daterange");
            assert(pg_names()[24] == pg_row(24).0);
            crate::ordmap::lemma_index_witness(pg_names(), "daterange"@, 24);
            assert(parse_display("daterange"@) == Some(t));
        },
        TypeV::DateTz => {
            reveal_strlit("datetz");
            assert(pg_names()[25] == pg_row(25).0);
            crate::ordmap::lemma_index_witness(pg_names(), "datetz"@, 25);
            assert(parse_display("datetz"@) == Some(t));
        },
        TypeV::Decimal => {
            reveal_strlit("decimal");
            assert(pg_names()[26] == pg_row(26).0);
            crate::ordmap::lemma_index_witness(pg_names(), "decimal"@, 26);
            assert(parse_display("decimal"@) == Some(t));
        },
        TypeV::Float4 => {
            reveal_strlit("float4");
            assert(pg_names()[27] == pg_row(27).0);
            crate::ordmap::lemma_index_witness(pg_names(), "float4"@, 27);
            assert(parse_display("float4"@) == Some(t));
        },
        TypeV::Float8 => {
            reveal_strlit("float8");
            assert(pg_names()[28] == pg_row(28).0);
            crate::ordmap::lemma_index_witness(pg_names(), "float8"@, 28);
            assert(parse_display("float8"@) == Some(t));
        },
        TypeV::Inet => {
            reveal_strlit("inet");
            assert(pg_names()[29] == pg_row(29).0);
            crate::ordmap::lemma_index_witness(pg_names(), "inet"@, 29);
            assert(parse_display("inet"@) == Some(t));
        },
        TypeV::Int2 => {
            reveal_strlit("int2");
            assert(pg_names()[30] == pg_row(30).0);
            crate::ordmap::lemma_index_witness(pg_names(), "int2"@, 30);
            assert(parse_display("int2"@) == Some(t));
        },
        TypeV::Int4 => {
            reveal_strlit("int4");
            assert(pg_names()[31] == pg_row(31).0);
            crate::ordmap::lemma_index_witness(pg_names(), "int4"@, 31);
            assert(parse_display("int4"@) == Some(t));
        },
        TypeV::Int4MultiRange => {
            reveal_strlit("int4multirange");
            assert(pg_names()[32] == pg_row(32).0);
            crate::ordmap::lemma_index_witness(pg_names(), "int4multirange"@, 32);
            assert(parse_display("int4multirange"@) == Some(t));
        },
        TypeV::Int4Range => {
            reveal_strlit("int4range");
            assert(pg_names()[33] == pg_row(33).0);
            crate::ordmap::lemma_index_witness(pg_names(), "int4range"@, 33);
            assert(parse_display("int4range"@) == Some(t));
        },
        TypeV::Int8 => {
            reveal_strlit("int8");
            assert(pg_names()[34] == pg_row(34).0);
            crate::ordmap::lemma_index_witness(pg_names(), "int8"@, 34);
            assert(parse_display("int8"@) == Some(t));
        },
        TypeV::Int8MultiRange => {
            reveal_strlit("int8multirange");
            assert(pg_names()[35] == pg_row(35).0);
            crate::ordmap::lemma_index_witness(pg_names(), "int8multirange"@, 35);
            assert(parse_display("int8multirange"@) == Some(t));
        },
        TypeV::Int8Range => {
            reveal_strlit("int8range");
            assert(pg_names()[36] == pg_row(36).0);
            crate::ordmap::lemma_index_witness(pg_names(), "int8range"@, 36);
            assert(parse_display("int8range"@) == Some(t));
        },
        TypeV::Interval => {
            reveal_strlit("interval");
            assert(pg_names()[37] == pg_row(37).0);
            crate::ordmap::lemma_index_witness(pg_names(), "interval"@, 37);
            assert(parse_display("interval"@) == Some(t));
        },
        TypeV::Json => {
            reveal_strlit("json");
            assert(pg_names()[38] == pg_row(38).0);
            crate::ordmap::lemma_index_witness(pg_names(), "json"@, 38);
            assert(parse_display("json"@) == Some(t));
        },
        TypeV::Jsonb => {
            reveal_strlit("jsonb");
            assert(pg_names()[39] == pg_row(39).0);
            crate::ordmap::lemma_index_witness(pg_names(), "jsonb"@, 39);
            assert(parse_display("jsonb"@) == Some(t));
        },
        TypeV::JsonPath => {
            reveal_strlit("jsonpath");
            assert(pg_names()[40] == pg_row(40).0);
            crate::ordmap::lemma_index_witness(pg_names(), "jsonpath"@, 40);
            assert(parse_display("jsonpath"@) == Some(t));
        },
        TypeV::Line => {
            reveal_strlit("line");
            assert(pg_names()[41] == pg_row(41).0);
            crate::ordmap::lemma_index_witness(pg_names(), "line"@, 41);
            assert(parse_display("line"@) == Some(t));
        },
        TypeV::LSeg => {
            reveal_strlit("lseg");
            assert(pg_names()[42] == pg_row(42).0);
            crate::ordmap::lemma_index_witness(pg_names(), "lseg"@, 42);
            assert(parse_display("lseg"@) == Some(t));
        },
        TypeV::MacAddr => {
            reveal_strlit("macaddr");
            assert(pg_names()[43] == pg_row(43).0);
            crate::ordmap::lemma_index_witness(pg_names(), "macaddr"@, 43);
            assert(parse_display("macaddr"@) == Some(t));
        },
        TypeV::MacAddr8 => {
            reveal_strlit("macaddr8");
            assert(pg_names()[44] == pg_row(44).0);
            crate::ordmap::lemma_index_witness(pg_names(), "macaddr8"@, 44);
            assert(parse_display("macaddr8"@) == Some(t));
        },
        TypeV::Money => {
            reveal_strlit("money");
            assert(pg_names()[45] == pg_row(45).0);
            crate::ordmap::lemma_index_witness(pg_names(), "money"@, 45);
            assert(parse_display("money"@) == Some(t));
        },
        TypeV::Numeric => {
            reveal_strlit("numeric");
            assert(pg_names()[46] == pg_row(46).0);
            crate::ordmap::lemma_index_witness(pg_names(), "numeric"@, 46);
            assert(parse_display("numeric"@) == Some(t));
        },
        TypeV::NumMultiRange => {
            reveal_strlit("nummultirange");
            assert(pg_names()[47] == pg_row(47).0);
            crate::ordmap::lemma_index_witness(pg_names(), "nummultirange"@, 47);
            assert(parse_display("nummultirange"@) == Some(t));
        },
        TypeV::NumRange => {
            reveal_strlit("numrange");
            assert(pg_names()[48] == pg_row(48).0);
            crate::ordmap::lemma_index_witness(pg_names(), "numrange"@, 48);
            assert(parse_display("numrange"@) == Some(t));
        },
        TypeV::Path => {
            reveal_strlit("path");
            assert(pg_names()[49] == pg_row(49).0);
            crate::ordmap::lemma_index_witness(pg_names(), "path"@, 49);
            assert(parse_display("path"@) == Some(t));
        },
        TypeV::Point => {
            reveal_strlit("point");
            assert(pg_names()[50] == pg_row(50).0);
            crate::ordmap::lemma_index_witness(pg_names(), "point"@, 50);
            assert(parse_display("point"@) == Some(t));
        },
        TypeV::Polygon => {
            reveal_strlit("polygon");
            assert(pg_names()[51] == pg_row(51).0);
            crate::ordmap::lemma_index_witness(pg_names(), "polygon"@, 51);
            assert(parse_display("polygon"@) == Some(t));
        },
        TypeV::Range => {
            reveal_strlit("range");
            assert(pg_names()[52] == pg_row(52).0);
            crate::ordmap::lemma_index_witness(pg_names(), "range"@, 52);
            assert(parse_display("range"@) == Some(t));
        },
        TypeV::Record => {
            reveal_strlit("record");
            assert(pg_names()[53] == pg_row(53).0);
            crate::ordmap::lemma_index_witness(pg_names(), "record"@, 53);
            assert(parse_display("record"@) == Some(t));
        },
        TypeV::Serial2 => {
            reveal_strlit("serial2");
            assert(pg_names()[54] == pg_row(54).0);
            crate::ordmap::lemma_index_witness(pg_names(), "serial2"@, 54);
            assert(parse_display("serial2"@) == Some(t));
        },
        TypeV::Serial4 => {
            reveal_strlit("serial4");
            assert(pg_names()[55] == pg_row(55).0);
            crate::ordmap::lemma_index_witness(pg_names(), "serial4"@, 55);
            assert(parse_display("serial4"@) == Some(t));
        },
        TypeV::Serial8 => {
            reveal_strlit("serial8");
            assert(pg_names()[56] == pg_row(56).0);
            crate::ordmap::lemma_index_witness(pg_names(), "serial8"@, 56);
            assert(parse_display("serial8"@) == Some(t));
        },
        TypeV::Text => {
            reveal_strlit("text");
            assert(pg_names()[57] == pg_row(57).0);
            crate::ordmap::lemma_index_witness(pg_names(), "text"@, 57);
            assert(parse_display("text"@) == Some(t));
        },
        TypeV::Time => {
            reveal_strlit("time");
            assert(pg_names()[58] == pg_row(58).0);
            crate::ordmap::lemma_index_witness(pg_names(), "time"@, 58);
            assert(parse_display("time"@) == Some(t));
        },
        TypeV::Timestamp => {
            reveal_strlit("timestamp");
            assert(pg_names()[59] == pg_row(59).0);
            crate::ordmap::lemma_index_witness(pg_names(), "timestamp"@, 59);
            assert(parse_display("timestamp"@) == Some(t));
        },
        TypeV::TimestampTz => {
            reveal_strlit("timestamptz");
            assert(pg_names()[60] == pg_row(60).0);
            crate::ordmap::lemma_index_witness(pg_names(), "timestamptz"@, 60);
            assert(parse_display("timestamptz"@) == Some(t));
        },
        TypeV::TimeTz => {
            reveal_strlit("timetz");
            assert(pg_names()[61] == pg_row(61).0);
            crate::ordmap::lemma_index_witness(pg_names(), "timetz"@, 61);
            assert(parse_display("timetz"@) == Some(t));
        },
        TypeV::TsMultiRange => {
            reveal_strlit("tsmultirange");
            assert(pg_names()[62] == pg_row(62).0);
            crate::ordmap::lemma_index_witness(pg_names(), "tsmultirange"@, 62);
            assert(parse_display("tsmultirange"@) == Some(t));
        },
        TypeV::TsQuery => {
            reveal_strlit("tsquery");
            assert(pg_names()[63] == pg_row(63).0);
            crate::ordmap::lemma_index_witness(pg_names(), "tsquery"@, 63);
            assert(parse_display("tsquery"@) == Some(t));
        },
        TypeV::TsRange => {
            reveal_strlit("tsrange");
            assert(pg_names()[64] == pg_row(64).0);
            crate::ordmap::lemma_index_witness(pg_names(), "tsrange"@, 64);
            assert(parse_display("tsrange"@) == Some(t));
        },
        TypeV::TsTzMultiRange => {
            reveal_strlit("tstzmultirange");
            assert(pg_names()[65] == pg_row(65).0);
            crate::ordmap::lemma_index_witness(pg_names(), "tstzmultirange"@, 65);
            assert(parse_display("tstzmultirange"@) == Some(t));
        },
        TypeV::TsTzRange => {
            reveal_strlit("tstzrange");
            assert(pg_names()[66] == pg_row(66).0);
            crate::ordmap::lemma_index_witness(pg_names(), "tstzrange"@, 66);
            assert(parse_display("tstzrange"@) == Some(t));
        },
        TypeV::TsVector => {
            reveal_strlit("tsvector");
            assert(pg_names()[67] == pg_row(67).0);
            crate::ordmap::lemma_index_witness(pg_names(), "tsvector"@, 67);
            assert(parse_display("tsvector"@) == Some(t));
        },
        TypeV::Unknown => {
            reveal_strlit("unknown");
            assert(pg_names()[68] == pg_row(68).0);
            crate::ordmap::lemma_index_witness(pg_names(), "unknown"@, 68);
            assert(parse_display("unknown"@) == Some(t));
        },
        TypeV::Uuid => {
            reveal_strlit("uuid");
            assert(pg_names()[69] == pg_row(69).0);
            crate::ordmap::lemma_index_witness(pg_names(), "uuid"@, 69);
            assert(parse_display("uuid"@) == Some(t));
        },
        TypeV::VarChar => {
            reveal_strlit("varchar");
            assert(pg_names()[70] == pg_row(70).0);
            crate::ordmap::lemma_index_witness(pg_names(), "varchar"@, 70);
            assert(parse_display("varchar"@) == Some(t));
        },
        TypeV::Void => {
            reveal_strlit("void");
            assert(pg_names()[71] == pg_row(71).0);
            crate::ordmap::lemma_index_witness(pg_names(), "void"@, 71);
            assert(parse_display("void"@) == Some(t));
        },
        TypeV::Xml => {
            reveal_strlit("xml");
            assert(pg_names()[72] == pg_row(72).0);
            crate::ordmap::lemma_index_witness(pg_names(), "xml"@, 72);
            assert(parse_display("xml"@) == Some(t));
        },
    }
}

} // verus!
