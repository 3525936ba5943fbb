//! Pagination: reading a limit and an offset out of the query parameters,
//! and the sub-range of a listing that they select.
use vstd::prelude::*;
use vstd::string::*;
use crate::error::{Error, ErrorModel};
use crate::params::QueryParams;

verus! {

/// A validated pair: at most `limit` records, starting at index `offset`.
#[derive(Clone, Copy, Debug, PartialEq, Eq, Structural)]
pub struct Pagination {
    /// How many records at most; `None` reads to the end.
    pub limit: Option<usize>,
    /// The index of the first record returned.
    pub offset: usize,
}

pub open spec fn is_digit(c: char) -> bool {
    '0' <= c && c <= '9'
}

pub open spec fn digit_value(c: char) -> nat {
    (c as u32 - '0' as u32) as nat
}

/// The digits of a number as written, after an optional leading `+`.
pub open spec fn digits_of(s: Seq<char>) -> Seq<char> {
    if s.len() > 0 && s[0] == '+' {
        s.drop_first()
    } else {
        s
    }
}

pub open spec fn all_digits(d: Seq<char>) -> bool {
    forall|i: int| 0 <= i < d.len() ==> is_digit(#[trigger] d[i])
}

/// The number that a string of decimal digits denotes.
pub open spec fn decimal_value(d: Seq<char>) -> nat
    decreases d.len(),
{
    if d.len() == 0 {
        0
    } else {
        decimal_value(d.drop_last()) * 10 + digit_value(d.last())
    }
}

/// What parsing `s` as a `usize` yields: one or more decimal digits after an
/// optional `+`, denoting a number in range.
pub open spec fn parse_usize_spec(s: Seq<char>) -> Option<usize> {
    let d = digits_of(s);
    if d.len() > 0 && all_digits(d) && decimal_value(d) <= usize::MAX {
        Some(decimal_value(d) as usize)
    } else {
        None
    }
}

proof fn lemma_value_grows(d: Seq<char>, i: int, j: int)
    requires
        0 <= i <= j <= d.len(),
        all_digits(d),
    ensures
        decimal_value(d.subrange(0, i)) <= decimal_value(d.subrange(0, j)),
    decreases j - i,
{
    if i < j {
        lemma_value_grows(d, i, j - 1);
        assert(d.subrange(0, j).drop_last() =~= d.subrange(0, j - 1));
    }
}

/// Parses a non-negative integer in the range of `usize`.
pub fn parse_usize(s: &str) -> (r: Option<usize>)
    ensures
        r == parse_usize_spec(s@),
{
    let n = s.unicode_len();
    let start: usize = if n > 0 && s.get_char(0) == '+' { 1 } else { 0 };
    let ghost d = digits_of(s@);
    assert(d =~= s@.subrange(start as int, n as int));
    if start == n {
        return None;
    }
    let mut acc: usize = 0;
    let mut i: usize = start;
    while i < n
        invariant
            n == s@.len(),
            start <= i <= n,
            d =~= s@.subrange(start as int, n as int),
            d == digits_of(s@),
            forall|j: int| 0 <= j < i - start ==> is_digit(#[trigger] d[j]),
            acc == decimal_value(d.subrange(0, i - start)),
        decreases n - i,
    {
        let c = s.get_char(i);
        if c < '0' || c > '9' {
            assert(d[i - start] == c);
            assert(!is_digit(d[i - start]));
            assert(!all_digits(d));
            return None;
        }
        let dv = (c as u32 - '0' as u32) as usize;
        assert(d[i - start] == c);
        assert(d.subrange(0, i - start + 1).drop_last() =~= d.subrange(0, i - start));
        assert(d.subrange(0, i - start + 1).last() == c);
        assert(decimal_value(d.subrange(0, i - start + 1)) == acc * 10 + dv);
        if acc > (usize::MAX - dv) / 10 {
            proof {
                assert(acc * 10 + dv > usize::MAX) by (nonlinear_arith)
                    requires acc > (usize::MAX - dv) / 10, dv <= 9;
                if all_digits(d) {
                    lemma_value_grows(d, i - start + 1, d.len() as int);
                    assert(d.subrange(0, d.len() as int) =~= d);
                }
            }
            return None;
        }
        proof {
            assert(acc * 10 + dv <= usize::MAX) by (nonlinear_arith)
                requires acc <= (usize::MAX - dv) / 10, dv <= 9;
        }
        acc = acc * 10 + dv;
        i = i + 1;
    }
    assert(d.subrange(0, n - start) =~= d);
    Some(acc)
}

/// What the extractor yields for a mapping of query parameters.
pub open spec fn extract_spec(m: Map<Seq<char>, Seq<char>>) -> Result<Pagination, ErrorModel> {
    if !(m.contains_key("limit"@) && m.contains_key("offset"@)) {
        Err(ErrorModel::MissingParameters)
    } else {
        match parse_usize_spec(m["limit"@]) {
            None => Err(ErrorModel::ParseError("limit"@, m["limit"@])),
            Some(limit) => match parse_usize_spec(m["offset"@]) {
                None => Err(ErrorModel::ParseError("offset"@, m["offset"@])),
                Some(offset) => Ok(Pagination { limit: Some(limit), offset }),
            },
        }
    }
}

/// Reads the pagination out of the query parameters. Both `limit` and
/// `offset` must be present and parse as non-negative integers.
pub fn extract_pagination(params: &QueryParams) -> (r: Result<Pagination, Error>)
    requires
        params.wf(),
    ensures
        match r {
            Ok(p) => extract_spec(params@) == Ok::<Pagination, ErrorModel>(p),
            Err(e) => extract_spec(params@) == Err::<Pagination, ErrorModel>(e@),
        },
{
    let limit_raw = params.get("limit");
    let offset_raw = params.get("offset");
    match (limit_raw, offset_raw) {
        (Some(l), Some(o)) => {
            let limit = match parse_usize(l.as_str()) {
                Some(v) => v,
                None => {
                    return Err(Error::ParseError(String::from_str("limit"), l.clone()));
                },
            };
            let offset = match parse_usize(o.as_str()) {
                Some(v) => v,
                None => {
                    return Err(Error::ParseError(String::from_str("offset"), o.clone()));
                },
            };
            Ok(Pagination { limit: Some(limit), offset })
        },
        _ => Err(Error::MissingParameters),
    }
}

/// The records of `items` that a pagination selects: those from `offset`
/// on, at most `limit` of them; all of them without a pagination.
pub open spec fn page<T>(items: Seq<T>, p: Option<Pagination>) -> Seq<T> {
    match p {
        None => items,
        Some(p) => {
            let n = items.len() as int;
            let start = if p.offset < n { p.offset as int } else { n };
            let end = match p.limit {
                None => n,
                Some(l) => if p.offset + l < n { p.offset + l } else { n },
            };
            items.subrange(start, end)
        },
    }
}

/// A mapping that holds exactly one of `limit` and `offset` is refused as
/// missing a parameter.
pub proof fn lemma_one_key_is_missing(m: Map<Seq<char>, Seq<char>>)
    requires
        m.contains_key("limit"@) != m.contains_key("offset"@),
    ensures
        extract_spec(m) == Err::<Pagination, ErrorModel>(ErrorModel::MissingParameters),
{
}

/// A mapping that holds both keys, one of them with a value that is not a
/// number, is refused with a parse error.
pub proof fn lemma_non_numeric_is_parse_error(m: Map<Seq<char>, Seq<char>>)
    requires
        m.contains_key("limit"@),
        m.contains_key("offset"@),
        parse_usize_spec(m["limit"@]) is None || parse_usize_spec(m["offset"@]) is None,
    ensures
        extract_spec(m) matches Err(ErrorModel::ParseError(_, _)),
{
}

/// A page of `n` records at `(limit, offset)` holds `min(limit, max(0, n - offset))`
/// of them, and none when `offset >= n`.
pub proof fn lemma_page_len<T>(items: Seq<T>, limit: usize, offset: usize)
    ensures
        ({
            let n = items.len() as int;
            let len = page(items, Some(Pagination { limit: Some(limit), offset })).len() as int;
            let rest = if n - offset > 0 { n - offset } else { 0 };
            &&& len == if (limit as int) < rest { limit as int } else { rest }
            &&& offset >= n ==> len == 0
        }),
{
}

} // verus!
