//! Arguments of chat commands written as `a | b | ...`.
use vstd::prelude::*;
use vstd::string::StrSliceExecFns;

use crate::text::{push_char, trim, trimmed};

verus! {

/// Why a number could not be read.
#[derive(Clone, Copy, Debug, PartialEq, Eq, Structural)]
pub enum NumberError {
    /// Nothing was given.
    Empty,
    /// A character other than a decimal digit (after an optional `+`).
    InvalidDigit,
    /// The value does not fit in a `u64`.
    PosOverflow,
}

/// Why command arguments were refused.
#[derive(Clone, Debug)]
pub enum ParseError {
    /// The number of `|`-separated fields is not the one the command takes.
    TooFewArguments { expected: usize, found: usize, message: String },
    /// A numeric field could not be read.
    IncorrectFormat(NumberError),
}

/// The pieces of `s` between occurrences of `d`; there is always at least one.
pub open spec fn split_on(s: Seq<char>, d: char) -> Seq<Seq<char>>
    decreases s.len(),
{
    if s.len() == 0 {
        seq![Seq::<char>::empty()]
    } else {
        let rest = split_on(s.drop_last(), d);
        if s.last() == d {
            rest.push(Seq::<char>::empty())
        } else {
            rest.update(rest.len() - 1, rest.last().push(s.last()))
        }
    }
}

/// Each of `ps`, trimmed.
pub open spec fn trim_all(ps: Seq<Seq<char>>) -> Seq<Seq<char>> {
    ps.map_values(|p: Seq<char>| trimmed(p))
}

/// The characters of each of `v`.
pub open spec fn views_of(v: Seq<String>) -> Seq<Seq<char>> {
    v.map_values(|p: String| p@)
}

/// The `|`-separated fields of `s`, each trimmed.
pub open spec fn fields_of(s: Seq<char>) -> Seq<Seq<char>> {
    trim_all(split_on(s, '|'))
}

pub open spec fn is_digit(c: char) -> bool {
    '0' <= c <= '9'
}

/// Whether `s` is made of decimal digits only.
pub open spec fn all_digits(s: Seq<char>) -> bool {
    forall|i: int| 0 <= i < s.len() ==> is_digit(#[trigger] s[i])
}

/// The value of the decimal digits `s`.
pub open spec fn digits_value(s: Seq<char>) -> int
    decreases s.len(),
{
    if s.len() == 0 {
        0
    } else {
        digits_value(s.drop_last()) * 10 + (s.last() as int - '0' as int)
    }
}

/// `s` without one leading `+`.
pub open spec fn unsigned_body(s: Seq<char>) -> Seq<char> {
    if s.len() > 0 && s[0] == '+' {
        s.drop_first()
    } else {
        s
    }
}

/// How `s` reads as a `u64`: an optional `+` and at least one decimal digit,
/// with a value that fits.
pub open spec fn read_u64_spec(s: Seq<char>) -> Result<u64, NumberError> {
    let body = unsigned_body(s);
    if s.len() == 0 {
        Err(NumberError::Empty)
    } else if body.len() == 0 || !all_digits(body) {
        Err(NumberError::InvalidDigit)
    } else if digits_value(body) > u64::MAX {
        Err(NumberError::PosOverflow)
    } else {
        Ok(digits_value(body) as u64)
    }
}

proof fn lemma_digits_value_nonneg(s: Seq<char>)
    requires
        forall|i: int| 0 <= i < s.len() ==> is_digit(s[i]),
    ensures
        digits_value(s) >= 0,
    decreases s.len(),
{
    if s.len() > 0 {
        lemma_digits_value_nonneg(s.drop_last());
    }
}

proof fn lemma_digits_value_grows(s: Seq<char>, k: int)
    requires
        0 <= k <= s.len(),
        forall|i: int| 0 <= i < s.len() ==> is_digit(s[i]),
    ensures
        digits_value(s.subrange(0, k)) <= digits_value(s),
    decreases s.len() - k,
{
    if k < s.len() {
        lemma_digits_value_grows(s, k + 1);
        assert(s.subrange(0, k + 1).drop_last() =~= s.subrange(0, k));
        lemma_digits_value_nonneg(s.subrange(0, k));
    } else {
        assert(s.subrange(0, k) =~= s);
    }
}

/// Reads `s` as a `u64`.
pub fn read_u64(s: &str) -> (r: Result<u64, NumberError>)
    ensures
        r == read_u64_spec(s@),
{
    let n = s.unicode_len();
    if n == 0 {
        return Err(NumberError::Empty);
    }
    let start: usize = if s.get_char(0) == '+' {
        1
    } else {
        0
    };
    let ghost body = unsigned_body(s@);
    assert(body =~= s@.subrange(start as int, n as int));
    if start == n {
        assert(unsigned_body(s@).len() == 0);
        return Err(NumberError::InvalidDigit);
    }
    let mut i: usize = start;
    while i < n
        invariant
            start <= i <= n,
            n == s@.len(),
            body == s@.subrange(start as int, n as int),
            body == unsigned_body(s@),
            s@.len() > 0,
            forall|k: int| 0 <= k < i - start ==> is_digit(body[k]),
        decreases n - i,
    {
        let c = s.get_char(i);
        if !('0' <= c && c <= '9') {
            assert(body[i - start] == c);
            assert(!is_digit(body[i - start]));
            assert(!all_digits(body));
            return Err(NumberError::InvalidDigit);
        }
        i = i + 1;
    }
    let mut value: u64 = 0;
    let mut i: usize = start;
    while i < n
        invariant
            start <= i <= n,
            n == s@.len(),
            body == s@.subrange(start as int, n as int),
            body == unsigned_body(s@),
            s@.len() > 0,
            forall|k: int| 0 <= k < body.len() ==> is_digit(body[k]),
            value == digits_value(body.subrange(0, i - start)),
        decreases n - i,
    {
        let c = s.get_char(i);
        assert(body[i - start] == c);
        let d = (c as u32 - '0' as u32) as u64;
        assert(body.subrange(0, i - start + 1).drop_last() =~= body.subrange(0, i - start));
        assert(body.subrange(0, i - start + 1).last() == c);
        if value > (u64::MAX - d) / 10 {
            proof {
                assert(all_digits(body));
                lemma_digits_value_grows(body, i - start + 1);
                assert(digits_value(body.subrange(0, i - start + 1)) == value * 10 + d);
                assert(value * 10 + d > u64::MAX) by (nonlinear_arith)
                    requires
                        value > (u64::MAX - d) / 10,
                        d <= 9,
                ;
            }
            return Err(NumberError::PosOverflow);
        }
        assert(value * 10 + d <= u64::MAX) by (nonlinear_arith)
            requires
                value <= (u64::MAX - d) / 10,
                d <= 9,
        ;
        value = value * 10 + d;
        i = i + 1;
    }
    assert(body.subrange(0, n - start) =~= body);
    Ok(value)
}

/// Splits `s` at every `|`.
fn split_bars(s: &str) -> (r: Vec<String>)
    ensures
        views_of(r@) == split_on(s@, '|'),
{
    let n = s.unicode_len();
    let mut parts: Vec<String> = Vec::new();
    let mut cur = String::new();
    let mut i: usize = 0;
    while i < n
        invariant
            i <= n,
            n == s@.len(),
            views_of(parts@).push(cur@) == split_on(s@.subrange(0, i as int), '|'),
        decreases n - i,
    {
        let c = s.get_char(i);
        let ghost before = views_of(parts@).push(cur@);
        assert(s@.subrange(0, i as int + 1).drop_last() =~= s@.subrange(0, i as int));
        if c == '|' {
            let done = cur;
            parts.push(done);
            cur = String::new();
            assert(views_of(parts@).push(cur@) =~= before.push(
                Seq::<char>::empty(),
            ));
        } else {
            push_char(&mut cur, c);
            assert(views_of(parts@).push(cur@) =~= before.update(
                before.len() - 1,
                before.last().push(c),
            ));
        }
        i = i + 1;
    }
    assert(s@.subrange(0, n as int) =~= s@);
    parts.push(cur);
    parts
}

/// The `|`-separated fields of `input`, each trimmed.
pub fn split_fields(input: &str) -> (r: Vec<String>)
    ensures
        views_of(r@) == fields_of(input@),
{
    let raw = split_bars(input);
    let ghost pieces = split_on(input@, '|');
    let mut out: Vec<String> = Vec::new();
    let mut i: usize = 0;
    while i < raw.len()
        invariant
            i <= raw@.len(),
            views_of(raw@) == pieces,
            views_of(out@) == trim_all(pieces.subrange(0, i as int)),
        decreases raw@.len() - i,
    {
        assert(pieces[i as int] == raw@[i as int]@);
        let piece = trim(raw[i].as_str()).to_owned();
        let ghost prev = out@;
        out.push(piece);
        assert(views_of(out@) =~= views_of(prev).push(piece@));
        assert(trim_all(pieces.subrange(0, i as int + 1)) =~= trim_all(
            pieces.subrange(0, i as int),
        ).push(trimmed(pieces[i as int])));
        i = i + 1;
    }
    assert(pieces.subrange(0, raw@.len() as int) =~= pieces);
    out
}

/// The error for a wrong number of fields.
fn wrong_count(expected: usize, found: usize) -> (r: ParseError)
    ensures
        r matches ParseError::TooFewArguments { expected: e, found: f, .. } && e == expected && f
            == found,
{
    ParseError::TooFewArguments {
        expected,
        found,
        message: "Please, provide correct number of parameters".to_owned(),
    }
}

/// Reads `question | answer | topic | difficulty`: four trimmed fields, the
/// last a `u64`.
pub fn parse_four_delimited_strings(input: String) -> (r: Result<
    (String, String, String, u64),
    ParseError,
>)
    ensures
        ({
            let f = fields_of(input@);
            &&& f.len() != 4 ==> (r matches Err(
                ParseError::TooFewArguments { expected, found, .. },
            ) && expected == 4 && found == f.len())
            &&& f.len() == 4 ==> match read_u64_spec(f[3]) {
                Ok(v) => r matches Ok((a, b, c, d)) && a@ == f[0] && b@ == f[1] && c@ == f[2] && d
                    == v,
                Err(e) => r matches Err(ParseError::IncorrectFormat(e2)) && e2 == e,
            }
        }),
{
    let parts = split_fields(input.as_str());
    let ghost f = fields_of(input@);
    assert(parts@.len() == f.len());
    if parts.len() != 4 {
        return Err(wrong_count(4, parts.len()));
    }
    assert(parts@[3]@ == f[3]);
    match read_u64(parts[3].as_str()) {
        Ok(v) => {
            assert(parts@[0]@ == f[0] && parts@[1]@ == f[1] && parts@[2]@ == f[2]);
            Ok((parts[0].clone(), parts[1].clone(), parts[2].clone(), v))
        },
        Err(e) => Err(ParseError::IncorrectFormat(e)),
    }
}

/// Reads `first | second`: two trimmed fields.
pub fn parse_two_delimited_strings(input: String) -> (r: Result<(String, String), ParseError>)
    ensures
        ({
            let f = fields_of(input@);
            &&& f.len() != 2 ==> (r matches Err(
                ParseError::TooFewArguments { expected, found, .. },
            ) && expected == 2 && found == f.len())
            &&& f.len() == 2 ==> (r matches Ok((a, b)) && a@ == f[0] && b@ == f[1])
        }),
{
    let parts = split_fields(input.as_str());
    let ghost f = fields_of(input@);
    assert(parts@.len() == f.len());
    if parts.len() != 2 {
        return Err(wrong_count(2, parts.len()));
    }
    assert(parts@[0]@ == f[0] && parts@[1]@ == f[1]);
    Ok((parts[0].clone(), parts[1].clone()))
}

} // verus!
