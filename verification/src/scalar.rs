//! From a scalar's text to a value: the literal grammars, the rules for
//! tagged scalars and the resolution of plain ones.

use crate::data::Value;
use crate::data::ValueView;
use crate::error::ContextualError;
use vstd::prelude::*;
use yaml_rust::scanner::TScalarStyle;
use yaml_rust::scanner::TokenType;
use yaml_rust::Yaml;

verus! {

/// The characters of `text`, one by one.
pub fn chars_of(text: &str) -> (chars: Vec<char>)
    ensures
        chars@ == text@,
{
    let mut chars: Vec<char> = Vec::new();
    for c in it: text.chars()
        invariant
            it.seq() == text@,
            chars@ == it.seq().take(it.index() as int),
    {
        chars.push(c);
    }
    chars
}

/// Whether `c` is one of the ten decimal digits.
pub open spec fn is_digit(c: char) -> bool {
    '0' <= c && c <= '9'
}

/// Whether `c` is a sign.
pub open spec fn is_sign(c: char) -> bool {
    c == '+' || c == '-'
}

/// The place where the digits that begin at `from` end.
pub open spec fn digits_end(s: Seq<char>, from: int) -> int
    decreases s.len() - from,
{
    if 0 <= from < s.len() && is_digit(s[from]) {
        digits_end(s, from + 1)
    } else {
        from
    }
}

/// `c` in lower case, where it is an upper-case letter of the alphabet.
pub open spec fn lowered(c: char) -> char {
    if 'A' <= c && c <= 'Z' {
        ((c as u8) + 32) as char
    } else {
        c
    }
}

/// Whether `s` from `from` on is `word` but for the case of its letters.
/// `word` is in lower case.
pub open spec fn spells(s: Seq<char>, from: int, word: Seq<char>) -> bool {
    &&& s.len() - from == word.len()
    &&& forall|i: int| 0 <= i < word.len() ==> lowered(#[trigger] s[from + i]) == word[i]
}

/// Where the body of a literal begins: after its sign, if it has one.
pub open spec fn body_start(s: Seq<char>) -> int {
    if s.len() > 0 && is_sign(s[0]) {
        1
    } else {
        0
    }
}

/// Whether an exponent begins at `at` and runs to the end of `s`: an `e`,
/// a sign or none, and one digit or more.
pub open spec fn is_exponent(s: Seq<char>, at: int) -> bool {
    let digits = if at + 1 < s.len() && is_sign(s[at + 1]) {
        at + 2
    } else {
        at + 1
    };
    &&& 0 <= at < s.len()
    &&& (s[at] == 'e' || s[at] == 'E')
    &&& digits < s.len()
    &&& digits_end(s, digits) == s.len()
}

/// Whether `s` from `from` on is a decimal number: digits with at most one
/// point among them, at least one digit in all, and then an exponent or
/// nothing.
pub open spec fn is_number(s: Seq<char>, from: int) -> bool {
    let whole_end = digits_end(s, from);
    let pointed = whole_end < s.len() && s[whole_end] == '.';
    let mantissa_end = if pointed {
        digits_end(s, whole_end + 1)
    } else {
        whole_end
    };
    let digits = if pointed {
        mantissa_end - from - 1
    } else {
        mantissa_end - from
    };
    digits >= 1 && (mantissa_end == s.len() || is_exponent(s, mantissa_end))
}

/// Whether `s` is a float literal: after a sign or none, a decimal number or
/// one of the words `inf`, `infinity` and `nan` in any case.
pub open spec fn float_literal(s: Seq<char>) -> bool {
    let from = body_start(s);
    ||| is_number(s, from)
    ||| spells(s, from, seq!['i', 'n', 'f'])
    ||| spells(s, from, seq!['n', 'a', 'n'])
    ||| spells(s, from, seq!['i', 'n', 'f', 'i', 'n', 'i', 't', 'y'])
}

/// What a boolean literal says: `true` and `false` are the only ones.
pub open spec fn bool_literal(s: Seq<char>) -> Option<bool> {
    if s == seq!['t', 'r', 'u', 'e'] {
        Some(true)
    } else if s == seq!['f', 'a', 'l', 's', 'e'] {
        Some(false)
    } else {
        None
    }
}

/// The number that a digit stands for.
pub open spec fn digit_value(c: char) -> int {
    c as int - '0' as int
}

/// The number that the digits of `s` from `from` up to `to` write in base
/// ten.
pub open spec fn digits_value(s: Seq<char>, from: int, to: int) -> int
    decreases to - from,
{
    if from >= to {
        0
    } else {
        10 * digits_value(s, from, to - 1) + digit_value(s[to - 1])
    }
}

/// The number that an integer literal writes: a sign or none, then one
/// decimal digit or more and nothing else.
pub open spec fn int_literal(s: Seq<char>) -> Option<int> {
    let from = body_start(s);
    if from < s.len() && digits_end(s, from) == s.len() {
        let size = digits_value(s, from, s.len() as int);
        Some(
            if s[0] == '-' {
                -size
            } else {
                size
            },
        )
    } else {
        None
    }
}

/// The 64-bit integer that `s` writes, if it is an integer literal of a
/// number in range.
pub open spec fn i64_literal(s: Seq<char>) -> Option<i64> {
    match int_literal(s) {
        Some(n) => if i64::MIN <= n <= i64::MAX {
            Some(n as i64)
        } else {
            None
        },
        None => None,
    }
}

fn digit(c: char) -> (r: bool)
    ensures
        r == is_digit(c),
{
    '0' <= c && c <= '9'
}

fn sign(c: char) -> (r: bool)
    ensures
        r == is_sign(c),
{
    c == '+' || c == '-'
}

fn lower(c: char) -> (r: char)
    ensures
        r == lowered(c),
{
    if 'A' <= c && c <= 'Z' {
        ((c as u8) + 32) as char
    } else {
        c
    }
}

/// Runs over the digits of `s` that begin at `from`.
fn skip_digits(s: &Vec<char>, from: usize) -> (end: usize)
    requires
        from <= s.len(),
    ensures
        end == digits_end(s@, from as int),
        from <= end <= s.len(),
{
    let mut i: usize = from;
    while i < s.len() && digit(s[i])
        invariant
            from <= i <= s.len(),
            digits_end(s@, from as int) == digits_end(s@, i as int),
        decreases s.len() - i,
    {
        i += 1;
    }
    i
}

/// Reads `text` as a boolean literal.
pub fn parse_bool(text: &str) -> (r: Option<bool>)
    ensures
        r == bool_literal(text@),
{
    let s = chars_of(text);
    if s.len() == 4 && s[0] == 't' && s[1] == 'r' && s[2] == 'u' && s[3] == 'e' {
        assert(s@ =~= seq!['t', 'r', 'u', 'e']);
        Some(true)
    } else if s.len() == 5 && s[0] == 'f' && s[1] == 'a' && s[2] == 'l' && s[3] == 's' && s[4]
        == 'e' {
        assert(s@ =~= seq!['f', 'a', 'l', 's', 'e']);
        Some(false)
    } else {
        assert(seq!['t', 'r', 'u', 'e'].len() == 4);
        assert(seq!['f', 'a', 'l', 's', 'e'].len() == 5);
        None
    }
}

/// More digits never write a smaller number.
proof fn digits_value_grows(s: Seq<char>, from: int, mid: int, to: int)
    requires
        0 <= from <= mid <= to <= s.len(),
        digits_end(s, from) >= to,
    ensures
        0 <= digits_value(s, from, mid) <= digits_value(s, from, to),
    decreases to - mid,
{
    digits_run(s, from, to);
    if mid == from {
        digits_value_positive(s, from, to);
    } else if mid < to {
        digits_value_grows(s, from, mid, to - 1);
        digits_value_positive(s, from, to - 1);
        assert(is_digit(s[to - 1]));
    } else {
        digits_value_positive(s, from, to);
    }
}

/// Every place before the end of a run of digits holds a digit.
proof fn digits_run(s: Seq<char>, from: int, to: int)
    requires
        0 <= from <= to <= s.len(),
        digits_end(s, from) >= to,
    ensures
        forall|i: int| from <= i < to ==> is_digit(#[trigger] s[i]),
    decreases to - from,
{
    if from < to {
        digits_run(s, from + 1, to);
    }
}

/// Digits write a number that is not negative.
proof fn digits_value_positive(s: Seq<char>, from: int, to: int)
    requires
        0 <= from <= to <= s.len(),
        forall|i: int| from <= i < to ==> is_digit(#[trigger] s[i]),
    ensures
        0 <= digits_value(s, from, to),
    decreases to - from,
{
    if from < to {
        digits_value_positive(s, from, to - 1);
        assert(is_digit(s[to - 1]));
    }
}

/// Reads `text` as the decimal literal of a 64-bit integer.
pub fn parse_i64(text: &str) -> (r: Option<i64>)
    ensures
        r == i64_literal(text@),
{
    let s = chars_of(text);
    let from: usize = if s.len() > 0 && sign(s[0]) {
        1
    } else {
        0
    };
    if from >= s.len() {
        return None;
    }
    let negative = s[0] == '-';
    let limit: u128 = 0x8000_0000_0000_0000;
    let mut size: u128 = 0;
    let mut i: usize = from;
    while i < s.len()
        invariant
            from <= i <= s.len(),
            s@ == text@,
            from == body_start(s@),
            limit == 0x8000_0000_0000_0000,
            digits_end(s@, from as int) == digits_end(s@, i as int),
            size == digits_value(s@, from as int, i as int),
            size <= limit,
        decreases s.len() - i,
    {
        if !digit(s[i]) {
            return None;
        }
        let d: u128 = (s[i] as u8 - '0' as u8) as u128;
        let grown = size * 10 + d;
        assert(grown == digits_value(s@, from as int, i + 1));
        if grown > limit {
            proof {
                if digits_end(s@, from as int) == s.len() {
                    digits_value_grows(s@, from as int, i + 1, s.len() as int);
                }
            }
            return None;
        }
        size = grown;
        i += 1;
    }
    if negative {
        if size == limit {
            Some(i64::MIN)
        } else {
            Some(-(size as i64))
        }
    } else if size == limit {
        None
    } else {
        Some(size as i64)
    }
}

/// Whether `s` from `from` on is an exponent.
fn exponent_at(s: &Vec<char>, at: usize) -> (r: bool)
    requires
        at <= s.len(),
    ensures
        r == is_exponent(s@, at as int),
{
    if at >= s.len() || !(s[at] == 'e' || s[at] == 'E') {
        return false;
    }
    let digits: usize = if at + 1 < s.len() && sign(s[at + 1]) {
        at + 2
    } else {
        at + 1
    };
    digits < s.len() && skip_digits(s, digits) == s.len()
}

/// Whether `s` from `from` on is a decimal number.
fn number_at(s: &Vec<char>, from: usize) -> (r: bool)
    requires
        from <= s.len(),
    ensures
        r == is_number(s@, from as int),
{
    let whole_end = skip_digits(s, from);
    let pointed = whole_end < s.len() && s[whole_end] == '.';
    let mantissa_end = if pointed {
        skip_digits(s, whole_end + 1)
    } else {
        whole_end
    };
    let digits = if pointed {
        mantissa_end - from - 1
    } else {
        mantissa_end - from
    };
    digits >= 1 && (mantissa_end == s.len() || exponent_at(s, mantissa_end))
}

/// To spell a word is to match it letter by letter.
proof fn spells_by_letter(s: Seq<char>, from: int, word: Seq<char>)
    requires
        word.len() == 3 || word.len() == 8,
    ensures
        word.len() == 3 ==> (spells(s, from, word) <==> s.len() - from == 3 && lowered(s[from])
            == word[0] && lowered(s[from + 1]) == word[1] && lowered(s[from + 2]) == word[2]),
        word.len() == 8 ==> (spells(s, from, word) <==> s.len() - from == 8 && lowered(s[from])
            == word[0] && lowered(s[from + 1]) == word[1] && lowered(s[from + 2]) == word[2]
            && lowered(s[from + 3]) == word[3] && lowered(s[from + 4]) == word[4] && lowered(
            s[from + 5],
        ) == word[5] && lowered(s[from + 6]) == word[6] && lowered(s[from + 7]) == word[7]),
{
    if spells(s, from, word) {
        assert(lowered(s[from + 0]) == word[0]);
        assert(lowered(s[from + 1]) == word[1]);
        assert(lowered(s[from + 2]) == word[2]);
        if word.len() == 8 {
            assert(lowered(s[from + 3]) == word[3]);
            assert(lowered(s[from + 4]) == word[4]);
            assert(lowered(s[from + 5]) == word[5]);
            assert(lowered(s[from + 6]) == word[6]);
            assert(lowered(s[from + 7]) == word[7]);
        }
    }
    if s.len() - from == word.len() && lowered(s[from]) == word[0] && lowered(s[from + 1])
        == word[1] && lowered(s[from + 2]) == word[2] && (word.len() == 8 ==> lowered(s[from + 3])
        == word[3] && lowered(s[from + 4]) == word[4] && lowered(s[from + 5]) == word[5]
        && lowered(s[from + 6]) == word[6] && lowered(s[from + 7]) == word[7]) {
        assert forall|i: int| 0 <= i < word.len() implies lowered(#[trigger] s[from + i])
            == word[i] by {
            if i == 0 {
                assert(s[from + i] == s[from]);
            }
        }
    }
}

/// Whether `s` from `from` on is `inf`, `nan` or `infinity` in any case.
fn word_at(s: &Vec<char>, from: usize) -> (r: bool)
    requires
        from <= s.len(),
    ensures
        r == (spells(s@, from as int, seq!['i', 'n', 'f']) || spells(
            s@,
            from as int,
            seq!['n', 'a', 'n'],
        ) || spells(s@, from as int, seq!['i', 'n', 'f', 'i', 'n', 'i', 't', 'y'])),
{
    proof {
        spells_by_letter(s@, from as int, seq!['i', 'n', 'f']);
        spells_by_letter(s@, from as int, seq!['n', 'a', 'n']);
        spells_by_letter(s@, from as int, seq!['i', 'n', 'f', 'i', 'n', 'i', 't', 'y']);
    }
    let n = s.len() - from;
    if n == 3 {
        let a = lower(s[from]);
        let b = lower(s[from + 1]);
        let c = lower(s[from + 2]);
        (a == 'i' && b == 'n' && c == 'f') || (a == 'n' && b == 'a' && c == 'n')
    } else if n == 8 {
        lower(s[from]) == 'i' && lower(s[from + 1]) == 'n' && lower(s[from + 2]) == 'f' && lower(
            s[from + 3],
        ) == 'i' && lower(s[from + 4]) == 'n' && lower(s[from + 5]) == 'i' && lower(s[from + 6])
            == 't' && lower(s[from + 7]) == 'y'
    } else {
        false
    }
}

/// Whether `text` is a float literal.
pub fn is_float_literal(text: &str) -> (r: bool)
    ensures
        r == float_literal(text@),
{
    let s = chars_of(text);
    let from: usize = if s.len() > 0 && sign(s[0]) {
        1
    } else {
        0
    };
    number_at(&s, from) || word_at(&s, from)
}

/// What `Yaml::from_str` makes of the text of a plain scalar.
#[derive(Debug)]
pub enum Resolved {
    Real(String),
    Integer(i64),
    Text(String),
    Boolean(bool),
    Null,
}

/// What a [`Resolved`] is to a contract.
pub enum ResolvedView {
    Real(Seq<char>),
    Integer(i64),
    Text(Seq<char>),
    Boolean(bool),
    Null,
}

impl View for Resolved {
    type V = ResolvedView;

    open spec fn view(&self) -> ResolvedView {
        match self {
            Resolved::Real(text) => ResolvedView::Real(text@),
            Resolved::Integer(i) => ResolvedView::Integer(*i),
            Resolved::Text(text) => ResolvedView::Text(text@),
            Resolved::Boolean(b) => ResolvedView::Boolean(*b),
            Resolved::Null => ResolvedView::Null,
        }
    }
}

/// What `Yaml::from_str` makes of `text`.
pub uninterp spec fn yaml_resolve(text: Seq<char>) -> ResolvedView;

/// `Yaml::from_str`, which resolves the text of a plain scalar by the rules
/// of the YAML core schema. It yields a real, an integer, a boolean, a
/// string or null; a real and a string carry the text itself. What is none
/// of the first four comes out as `Null`.
#[verifier::external_body]
fn resolve(text: &str) -> (resolved: Resolved)
    ensures
        resolved@ == yaml_resolve(text@),
        resolved matches Resolved::Real(t) ==> t@ == text@,
        resolved matches Resolved::Text(t) ==> t@ == text@,
{
    match Yaml::from_str(text) {
        Yaml::Real(t) => Resolved::Real(t),
        Yaml::Integer(i) => Resolved::Integer(i),
        Yaml::String(t) => Resolved::Text(t),
        Yaml::Boolean(b) => Resolved::Boolean(b),
        _ => Resolved::Null,
    }
}

/// The views of a value or of the error in its place.
pub open spec fn outcome(r: Result<Value, ContextualError>) -> Result<ValueView, Seq<char>> {
    match r {
        Ok(v) => Ok(v@),
        Err(e) => Err(e@),
    }
}

/// The value of a plain scalar with the tag `!!suffix`: the suffix names the
/// type that the text must be a literal of. An unknown suffix leaves the
/// text a string, and null is no value.
pub open spec fn tagged(text: Seq<char>, suffix: Seq<char>) -> Result<ValueView, Seq<char>> {
    if suffix == "bool"@ {
        match bool_literal(text) {
            Some(b) => Ok(ValueView::Boolean(b)),
            None => Err("invalid boolean"@),
        }
    } else if suffix == "int"@ {
        match i64_literal(text) {
            Some(i) => Ok(ValueView::Integer(i)),
            None => Err("invalid integer"@),
        }
    } else if suffix == "float"@ {
        if float_literal(text) {
            Ok(ValueView::Float(text))
        } else {
            Err("invalid float"@)
        }
    } else if suffix == "null"@ {
        Err("null not allowed"@)
    } else {
        Ok(ValueView::String(text))
    }
}

/// The value of a plain scalar without a tag, from what its text resolved
/// to. Null is no value.
pub open spec fn untagged(resolved: ResolvedView) -> Result<ValueView, Seq<char>> {
    match resolved {
        ResolvedView::Real(text) => Ok(ValueView::Float(text)),
        ResolvedView::Integer(i) => Ok(ValueView::Integer(i)),
        ResolvedView::Text(text) => Ok(ValueView::String(text)),
        ResolvedView::Boolean(b) => Ok(ValueView::Boolean(b)),
        ResolvedView::Null => Err("null not allowed"@),
    }
}

/// The value of a scalar. One that is not plain is a string, whatever it
/// looks like. A plain one with a tag goes by the tag: `!!` and a suffix
/// call for a type, any other handle for a string. A plain one without a
/// tag is what its text resolves to.
pub open spec fn scalar(
    text: Seq<char>,
    style: TScalarStyle,
    tag: Option<TokenType>,
    resolved: ResolvedView,
) -> Result<ValueView, Seq<char>> {
    if !(style is Plain) {
        Ok(ValueView::String(text))
    } else {
        match tag {
            Some(TokenType::Tag(handle, suffix)) => if handle@ == "!!"@ {
                tagged(text, suffix@)
            } else {
                Ok(ValueView::String(text))
            },
            _ => untagged(resolved),
        }
    }
}

/// Whether `s` reads `literal`.
fn reads(s: &str, literal: &str) -> (r: bool)
    ensures
        r == (s@ == literal@),
{
    s.to_owned() == literal.to_owned()
}

/// The value of the plain scalar `text` under the tag `!!suffix`.
pub fn tagged_value(text: String, suffix: &str) -> (r: Result<Value, ContextualError>)
    ensures
        outcome(r) == tagged(text@, suffix@),
{
    if reads(suffix, "bool") {
        match parse_bool(text.as_str()) {
            Some(b) => Ok(Value::Boolean(b)),
            None => Err(ContextualError::new("invalid boolean")),
        }
    } else if reads(suffix, "int") {
        match parse_i64(text.as_str()) {
            Some(i) => Ok(Value::Integer(i)),
            None => Err(ContextualError::new("invalid integer")),
        }
    } else if reads(suffix, "float") {
        if is_float_literal(text.as_str()) {
            Ok(Value::Float(text))
        } else {
            Err(ContextualError::new("invalid float"))
        }
    } else if reads(suffix, "null") {
        Err(ContextualError::new("null not allowed"))
    } else {
        Ok(Value::String(text))
    }
}

/// The value of a plain scalar without a tag that resolved to `resolved`.
pub fn plain_value(resolved: Resolved) -> (r: Result<Value, ContextualError>)
    ensures
        outcome(r) == untagged(resolved@),
{
    match resolved {
        Resolved::Real(text) => Ok(Value::Float(text)),
        Resolved::Integer(i) => Ok(Value::Integer(i)),
        Resolved::Text(text) => Ok(Value::String(text)),
        Resolved::Boolean(b) => Ok(Value::Boolean(b)),
        Resolved::Null => Err(ContextualError::new("null not allowed")),
    }
}

/// The value of the scalar `text` of the given style and tag. Its text is
/// resolved only where the value depends on it.
pub fn scalar_value(text: String, style: TScalarStyle, tag: Option<TokenType>) -> (r: Result<
    Value,
    ContextualError,
>)
    ensures
        outcome(r) == scalar(text@, style, tag, yaml_resolve(text@)),
{
    match style {
        TScalarStyle::Plain => match tag {
            Some(TokenType::Tag(handle, suffix)) => {
                if reads(handle.as_str(), "!!") {
                    tagged_value(text, suffix.as_str())
                } else {
                    Ok(Value::String(text))
                }
            },
            _ => plain_value(resolve(text.as_str())),
        },
        _ => Ok(Value::String(text)),
    }
}

} // verus!
