//! String-case utilities exposed to template bodies. The case foldings come
//! from an outside crate; each result is given a name that the callers'
//! contracts use.

use vstd::prelude::*;

use heck::ToKebabCase;
use heck::ToLowerCamelCase;
use heck::ToShoutySnakeCase;
use heck::ToSnakeCase;
use heck::ToUpperCamelCase;

verus! {

/// Relies on std's `String::push`: appends one character to the string.
pub assume_specification[ String::push ](s: &mut String, c: char)
    ensures
        final(s)@ == old(s)@.push(c),
;

pub uninterp spec fn camel_of(s: Seq<char>) -> Seq<char>;

pub uninterp spec fn pascal_of(s: Seq<char>) -> Seq<char>;

pub uninterp spec fn snake_of(s: Seq<char>) -> Seq<char>;

pub uninterp spec fn shouty_snake_of(s: Seq<char>) -> Seq<char>;

pub uninterp spec fn kebab_of(s: Seq<char>) -> Seq<char>;

pub uninterp spec fn debug_quoted_of(s: Seq<char>) -> Seq<char>;

pub uninterp spec fn regex_replaced_of(
    text: Seq<char>,
    pattern: Seq<char>,
    replacement: Seq<char>,
) -> Seq<char>;

/// Relies on heck's `ToLowerCamelCase`: the result depends on the characters
/// alone.
#[verifier::external_body]
pub fn to_camel_case(s: &str) -> (r: String)
    ensures
        r@ == camel_of(s@),
{
    s.to_lower_camel_case()
}

/// Relies on heck's `ToUpperCamelCase`: the result depends on the characters
/// alone.
#[verifier::external_body]
pub fn to_pascal_case(s: &str) -> (r: String)
    ensures
        r@ == pascal_of(s@),
{
    s.to_upper_camel_case()
}

/// Relies on heck's `ToSnakeCase`: the result depends on the characters
/// alone.
#[verifier::external_body]
pub fn to_snake_case(s: &str) -> (r: String)
    ensures
        r@ == snake_of(s@),
{
    s.to_snake_case()
}

/// Relies on heck's `ToShoutySnakeCase`: the result depends on the
/// characters alone.
#[verifier::external_body]
pub fn to_screaming_snake_case(s: &str) -> (r: String)
    ensures
        r@ == shouty_snake_of(s@),
{
    s.to_shouty_snake_case()
}

/// Relies on heck's `ToKebabCase`: the result depends on the characters
/// alone.
#[verifier::external_body]
pub fn to_kebab_case(s: &str) -> (r: String)
    ensures
        r@ == kebab_of(s@),
{
    s.to_kebab_case()
}

/// Relies on std's `Debug` formatting of `str`: a quoted, escaped form of
/// the text that depends on the characters alone.
#[verifier::external_body]
pub fn to_c_string(s: &str) -> (r: String)
    ensures
        r@ == debug_quoted_of(s@),
{
    format!("{:?}", s)
}

/// Relies on `regex::Regex::new` and `regex::Regex::replace_all`: compiles
/// `pattern` and replaces every match in `text`; `None` when the pattern is
/// not a valid regular expression. The replaced text depends on the three
/// arguments alone.
#[verifier::external_body]
pub fn regex_replace(text: &str, pattern: &str, replacement: &str) -> (r: Option<String>)
    ensures
        r matches Some(s) ==> s@ == regex_replaced_of(text@, pattern@, replacement@),
{
    match regex::Regex::new(pattern) {
        Ok(re) => Some(re.replace_all(text, replacement).into_owned()),
        Err(_) => None,
    }
}

} // verus!
