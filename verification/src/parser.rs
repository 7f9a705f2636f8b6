use vstd::prelude::*;
use vstd::string::StrSliceExecFns;

use crate::error::Error;
use crate::expression::Expression;
use crate::expression::SpecExpr;
use crate::expression::seq_view;
use crate::expression::str_eq;
use crate::semantics::is_ws;

verus! {

/// The characters that end a token: whitespace and the four brackets.
pub open spec fn is_delim(c: char) -> bool {
    is_ws(c) || c == '(' || c == ')' || c == '[' || c == ']'
}

/// The first delimiter position at or after `i`, if any.
pub open spec fn next_delim(s: Seq<char>, i: int) -> Option<int>
    decreases s.len() - i,
{
    if i < 0 || i >= s.len() {
        None
    } else if is_delim(s[i]) {
        Some(i)
    } else {
        next_delim(s, i + 1)
    }
}

/// Where `next_delim` finds a delimiter, it is the first one at or after
/// `i`; where it finds none, no position at or after `i` holds one.
pub proof fn lemma_next_delim(s: Seq<char>, i: int)
    requires
        0 <= i,
    ensures
        next_delim(s, i) matches Some(d) ==> i <= d < s.len() && is_delim(s[d]) && (forall|k: int|
            i <= k < d ==> !is_delim(#[trigger] s[k])),
        next_delim(s, i) is None ==> forall|k: int| i <= k < s.len() ==> !is_delim(#[trigger] s[k]),
    decreases s.len() - i,
{
    if i >= s.len() {
    } else if is_delim(s[i]) {
    } else {
        lemma_next_delim(s, i + 1);
    }
}

/// Whether `c` is a decimal digit.
pub open spec fn is_digit(c: char) -> bool {
    ('0' as u32) <= (c as u32) && (c as u32) <= ('9' as u32)
}

/// The value of a decimal digit.
pub open spec fn digit_val(c: char) -> int {
    (c as u32) - ('0' as u32)
}

/// Whether every character in `s[from..to]` is a decimal digit.
pub open spec fn all_digits(s: Seq<char>, from: int, to: int) -> bool {
    forall|k: int| from <= k < to ==> is_digit(#[trigger] s[k])
}

/// The value of the decimal digits `s[from..to]`, most significant first.
pub open spec fn digits_val(s: Seq<char>, from: int, to: int) -> int
    decreases to - from,
{
    if to <= from {
        0
    } else {
        digits_val(s, from, to - 1) * 10 + digit_val(s[to - 1])
    }
}

/// A digit string's value is never negative, and never shrinks as digits
/// are appended.
pub proof fn lemma_digits_val_grows(s: Seq<char>, from: int, k: int, to: int)
    requires
        from <= k <= to <= s.len(),
        all_digits(s, from, to),
    ensures
        0 <= digits_val(s, from, k) <= digits_val(s, from, to),
    decreases to - k,
{
    if k == to {
        lemma_digits_val_nonneg(s, from, to);
    } else {
        lemma_digits_val_grows(s, from, k, to - 1);
        lemma_digits_val_nonneg(s, from, to - 1);
    }
}

/// A digit string's value is never negative.
pub proof fn lemma_digits_val_nonneg(s: Seq<char>, from: int, to: int)
    requires
        all_digits(s, from, to) || to <= from,
    ensures
        0 <= digits_val(s, from, to),
    decreases to - from,
{
    if to <= from {
    } else {
        lemma_digits_val_nonneg(s, from, to - 1);
    }
}

/// The signed 64-bit integer a token denotes, if any: an optional sign,
/// then one or more decimal digits, and a value within the type's range;
/// anything else is no number.
pub open spec fn spec_parse_i64(t: Seq<char>) -> Option<i64> {
    if t.len() == 0 {
        None
    } else {
        let neg = t[0] == '-';
        let from: int = if t[0] == '-' || t[0] == '+' {
            1
        } else {
            0
        };
        if t.len() <= from {
            None
        } else if !all_digits(t, from, t.len() as int) {
            None
        } else {
            let v = digits_val(t, from, t.len() as int);
            if neg {
                if -v >= i64::MIN {
                    Some((-v) as i64)
                } else {
                    None
                }
            } else {
                if v <= i64::MAX {
                    Some(v as i64)
                } else {
                    None
                }
            }
        }
    }
}

/// How a token reads as an atom, tried in order: a 64-bit integer, a
/// boolean literal, the keyword `nil`, else a symbol; an empty token is
/// nothing at all.
pub open spec fn spec_classify(t: Seq<char>) -> Option<SpecExpr> {
    match spec_parse_i64(t) {
        Some(n) => Some(SpecExpr::Number(n)),
        None => if t == "true"@ {
            Some(SpecExpr::Bool(true))
        } else if t == "false"@ {
            Some(SpecExpr::Bool(false))
        } else if t.len() == 0 {
            None
        } else if t == "nil"@ {
            Some(SpecExpr::Nil)
        } else {
            Some(SpecExpr::Symbol(t))
        },
    }
}

/// One tokenizer pass from position `p`, with `acc` the elements read so
/// far at this nesting level.
///
/// The text before the next delimiter is a token and classifies as an
/// atom; a `(` or `[` reads a nested form, which must come back as a list
/// or a vector respectively (`MismatchedDelimiter` otherwise); a `)` or
/// `]` ends this level as a list or a vector; a level still open when the
/// text runs out, with or without a trailing delimiter, is
/// `UnterminatedList`. On success the position just past the consumed
/// text is returned with the form.
pub open spec fn spec_tok(s: Seq<char>, p: int, acc: Seq<SpecExpr>) -> Result<
    (int, SpecExpr),
    Error,
>
    decreases s.len() - p, 1int,
    via spec_tok_via
{
    if p < 0 {
        spec_tok(s, 0, acc)
    } else if p >= s.len() {
        Err(Error::UnterminatedList)
    } else {
        match next_delim(s, p) {
            None => Err(Error::UnterminatedList),
            Some(d) => {
                let tok = s.subrange(p, d);
                let acc2 = match spec_classify(tok) {
                    Some(e) => acc.push(e),
                    None => acc,
                };
                let c = s[d];
                if c == '(' {
                    match spec_tok(s, d + 1, Seq::empty()) {
                        Err(e) => Err(e),
                        Ok((q, e)) => {
                            let q2 = if q < d + 1 {
                                d + 1
                            } else if q > s.len() {
                                s.len() as int
                            } else {
                                q
                            };
                            if e is List {
                                spec_tok(s, q2, acc2.push(e))
                            } else {
                                Err(Error::MismatchedDelimiter)
                            }
                        },
                    }
                } else if c == '[' {
                    match spec_tok(s, d + 1, Seq::empty()) {
                        Err(e) => Err(e),
                        Ok((q, e)) => {
                            let q2 = if q < d + 1 {
                                d + 1
                            } else if q > s.len() {
                                s.len() as int
                            } else {
                                q
                            };
                            if e is Vector {
                                spec_tok(s, q2, acc2.push(e))
                            } else {
                                Err(Error::MismatchedDelimiter)
                            }
                        },
                    }
                } else if c == ')' {
                    Ok((d + 1, SpecExpr::List(acc2)))
                } else if c == ']' {
                    Ok((d + 1, SpecExpr::Vector(acc2)))
                } else {
                    spec_tok(s, d + 1, acc2)
                }
            },
        }
    }
}

#[via_fn]
proof fn spec_tok_via(s: Seq<char>, p: int, acc: Seq<SpecExpr>) {
    if 0 <= p < s.len() {
        lemma_next_delim(s, p);
    }
}

/// A successful tokenizer pass never moves backwards and never runs past
/// the end of the text.
pub proof fn lemma_spec_tok_bounds(s: Seq<char>, p: int, acc: Seq<SpecExpr>)
    requires
        0 <= p <= s.len(),
    ensures
        spec_tok(s, p, acc) matches Ok((q, e)) ==> p <= q <= s.len(),
    decreases s.len() - p, 1int,
{
    if p >= s.len() {
    } else {
        match next_delim(s, p) {
            None => {},
            Some(d) => {
                lemma_next_delim(s, p);
                let c = s[d];
                let tok = s.subrange(p, d);
                let acc2 = match spec_classify(tok) {
                    Some(e) => acc.push(e),
                    None => acc,
                };
                if c == '(' || c == '[' {
                    lemma_spec_tok_bounds(s, d + 1, Seq::empty());
                    match spec_tok(s, d + 1, Seq::empty()) {
                        Err(_) => {},
                        Ok((q, e)) => {
                            let q2 = if q < d + 1 {
                                d + 1
                            } else if q > s.len() {
                                s.len() as int
                            } else {
                                q
                            };
                            lemma_spec_tok_bounds(s, q2, acc2.push(e));
                        },
                    }
                } else if c == ')' || c == ']' {
                } else {
                    lemma_spec_tok_bounds(s, d + 1, acc2);
                }
            },
        }
    }
}

/// What parsing a whole source text yields: the text must open a list,
/// whose body is tokenized; text left over after the list closes is
/// `IncompleteTokenization`, and a top level that closes as anything but
/// a list — `(]` closes it as a vector — is `MismatchedDelimiter`. A
/// successful parse is always a single top-level list.
pub open spec fn spec_parse(s: Seq<char>) -> Result<SpecExpr, Error> {
    if s.len() == 0 || s[0] != '(' {
        Err(Error::ExpectedList)
    } else {
        match spec_tok(s, 1, Seq::empty()) {
            Err(e) => Err(e),
            Ok((q, e)) => if q != s.len() {
                Err(Error::IncompleteTokenization)
            } else if !(e is List) {
                Err(Error::MismatchedDelimiter)
            } else {
                Ok(e)
            },
        }
    }
}

} // verus!

verus! {

/// Reads a token as a signed 64-bit integer, exactly as `spec_parse_i64`:
/// an optional sign, then decimal digits whose value fits the type.
#[verifier::loop_isolation(false)]
pub fn parse_i64_token(t: &str) -> (r: Option<i64>)
    ensures
        r == spec_parse_i64(t@),
{
    let n = t.unicode_len();
    if n == 0 {
        return None;
    }
    let c0 = t.get_char(0);
    let neg = c0 == '-';
    let from: usize = if c0 == '-' || c0 == '+' {
        1
    } else {
        0
    };
    if n <= from {
        return None;
    }
    let limit: u64 = if neg {
        9223372036854775808
    } else {
        9223372036854775807
    };
    let mut val: u64 = 0;
    let mut i: usize = from;
    loop
        invariant
            from <= i <= n,
            all_digits(t@, from as int, i as int),
            val == digits_val(t@, from as int, i as int),
            val <= limit,
        decreases n - i,
    {
        if i >= n {
            break;
        }
        let c = t.get_char(i);
        let cu = c as u32;
        if cu < ('0' as u32) || cu > ('9' as u32) {
            proof {
                assert(!is_digit(t@[i as int]));
                assert(!all_digits(t@, from as int, n as int));
            }
            return None;
        }
        let d = (cu - ('0' as u32)) as u64;
        proof {
            assert(is_digit(t@[i as int]));
            assert(d == digit_val(t@[i as int]));
            assert(all_digits(t@, from as int, i + 1));
            assert(digits_val(t@, from as int, i + 1) == val * 10 + d);
        }
        let v10 = match val.checked_mul(10) {
            Some(v10) => v10,
            None => {
                proof {
                    if all_digits(t@, from as int, n as int) {
                        lemma_digits_val_grows(t@, from as int, i + 1, n as int);
                    }
                }
                return None;
            },
        };
        let v = match v10.checked_add(d) {
            Some(v) => v,
            None => {
                proof {
                    if all_digits(t@, from as int, n as int) {
                        lemma_digits_val_grows(t@, from as int, i + 1, n as int);
                    }
                }
                return None;
            },
        };
        if v > limit {
            proof {
                if all_digits(t@, from as int, n as int) {
                    lemma_digits_val_grows(t@, from as int, i + 1, n as int);
                }
            }
            return None;
        }
        val = v;
        i = i + 1;
    }
    if neg {
        if val == 9223372036854775808 {
            Some(i64::MIN)
        } else {
            Some(-(val as i64))
        }
    } else {
        Some(val as i64)
    }
}

/// Reads a token as an atom, exactly as `spec_classify`.
fn classify_token(t: &str) -> (r: Option<Expression>)
    ensures
        match (r, spec_classify(t@)) {
            (Some(e), Some(se)) => e@ == se,
            (None, None) => true,
            _ => false,
        },
{
    match parse_i64_token(t) {
        Some(x) => Some(Expression::Number(x)),
        None => {
            if str_eq(t, "true") {
                Some(Expression::Bool(true))
            } else if str_eq(t, "false") {
                Some(Expression::Bool(false))
            } else if t.unicode_len() == 0 {
                None
            } else if str_eq(t, "nil") {
                Some(Expression::Nil)
            } else {
                Some(Expression::Symbol(t.to_owned()))
            }
        },
    }
}

/// Whether `c` ends a token.
fn delim_char(c: char) -> (r: bool)
    ensures
        r == is_delim(c),
{
    c == ' ' || c == '\t' || c == '\n' || c == '\r' || c == '(' || c == ')' || c == '[' || c == ']'
}

/// The first delimiter position at or after `i`, if any.
#[verifier::loop_isolation(false)]
fn find_delim(s: &str, i: usize) -> (r: Option<usize>)
    ensures
        match r {
            Some(d) => i <= d < s@.len() && next_delim(s@, i as int) == Some(d as int),
            None => next_delim(s@, i as int) is None,
        },
{
    let n = s.unicode_len();
    let mut j = i;
    while j < n
        invariant
            i <= j,
            next_delim(s@, i as int) == next_delim(s@, j as int),
        decreases n - j,
    {
        if delim_char(s.get_char(j)) {
            return Some(j);
        }
        j = j + 1;
    }
    None
}

/// One tokenizer pass from position `p`, exactly as `spec_tok` reads it.
#[verifier::loop_isolation(false)]
fn tokenize_at(s: &str, p: usize) -> (r: Result<(usize, Expression), Error>)
    requires
        p <= s@.len(),
    ensures
        ({
            match (r, spec_tok(s@, p as int, Seq::empty())) {
                (Ok((q, e)), Ok((sq, se))) => q == sq && e@ == se && p <= q <= s@.len(),
                (Err(a), Err(b)) => a == b,
                _ => false,
            }
        }),
    decreases s@.len() - p,
{
    let n = s.unicode_len();
    let mut exprs: Vec<Expression> = Vec::new();
    let mut pos = p;
    proof {
        assert(seq_view(exprs@) =~~= Seq::<SpecExpr>::empty());
        lemma_spec_tok_bounds(s@, p as int, Seq::empty());
    }
    loop
        invariant
            p <= pos <= n,
            spec_tok(s@, p as int, Seq::empty()) == spec_tok(s@, pos as int, seq_view(exprs@)),
        decreases n - pos,
    {
        if pos >= n {
            return Err(Error::UnterminatedList);
        }
        let d = match find_delim(s, pos) {
            Some(d) => d,
            None => {
                return Err(Error::UnterminatedList);
            },
        };
        let tok = s.substring_char(pos, d);
        match classify_token(tok) {
            Some(e) => {
                let ghost a0 = seq_view(exprs@);
                exprs.push(e);
                proof {
                    assert(seq_view(exprs@) =~~= a0.push(exprs@.last()@));
                }
            },
            None => {},
        }
        let c = s.get_char(d);
        if c == '(' {
            match tokenize_at(s, d + 1) {
                Err(e) => {
                    return Err(e);
                },
                Ok((q, e)) => {
                    if e.is_list() {
                        let ghost a0 = seq_view(exprs@);
                        exprs.push(e);
                        proof {
                            assert(seq_view(exprs@) =~~= a0.push(exprs@.last()@));
                        }
                        pos = q;
                    } else {
                        return Err(Error::MismatchedDelimiter);
                    }
                },
            }
        } else if c == '[' {
            match tokenize_at(s, d + 1) {
                Err(e) => {
                    return Err(e);
                },
                Ok((q, e)) => {
                    if e.is_vector() {
                        let ghost a0 = seq_view(exprs@);
                        exprs.push(e);
                        proof {
                            assert(seq_view(exprs@) =~~= a0.push(exprs@.last()@));
                        }
                        pos = q;
                    } else {
                        return Err(Error::MismatchedDelimiter);
                    }
                },
            }
        } else if c == ')' {
            return Ok((d + 1, Expression::List(exprs)));
        } else if c == ']' {
            return Ok((d + 1, Expression::Vector(exprs)));
        } else {
            pos = d + 1;
        }
    }
}

/// What tokenizing a whole text yields: the unconsumed remainder, and the
/// form read.
pub open spec fn spec_tokenize(s: Seq<char>) -> Result<(Seq<char>, SpecExpr), Error> {
    match spec_tok(s, 0, Seq::empty()) {
        Err(e) => Err(e),
        Ok((q, e)) => Ok((s.subrange(q, s.len() as int), e)),
    }
}

/// Tokenizes `s` into one form plus the unconsumed remainder, exactly as
/// `spec_tokenize` reads it.
pub fn tokenize(s: &str) -> (r: Result<(&str, Expression), Error>)
    ensures
        match (r, spec_tokenize(s@)) {
            (Ok((rem, e)), Ok((srem, se))) => rem@ == srem && e@ == se,
            (Err(a), Err(b)) => a == b,
            _ => false,
        },
{
    match tokenize_at(s, 0) {
        Err(e) => Err(e),
        Ok((q, e)) => {
            let n = s.unicode_len();
            Ok((s.substring_char(q, n), e))
        },
    }
}

impl Expression {
    /// Parses source text, exactly as `spec_parse` reads it: the text must
    /// open a list (`ExpectedList` otherwise), its body is tokenized, text
    /// left over after the top-level form closes is
    /// `IncompleteTokenization`, and a top level closed as anything but a
    /// list is `MismatchedDelimiter`. A successful parse is always a
    /// single top-level list.
    pub fn parse_text(s: &str) -> (r: Result<Expression, Error>)
        ensures
            match (r, spec_parse(s@)) {
                (Ok(e), Ok(se)) => e@ == se,
                (Err(a), Err(b)) => a == b,
                _ => false,
            },
    {
        let n = s.unicode_len();
        if n == 0 {
            return Err(Error::ExpectedList);
        }
        if s.get_char(0) != '(' {
            return Err(Error::ExpectedList);
        }
        match tokenize_at(s, 1) {
            Err(e) => Err(e),
            Ok((q, e)) => {
                if q != n {
                    Err(Error::IncompleteTokenization)
                } else if !e.is_list() {
                    Err(Error::MismatchedDelimiter)
                } else {
                    Ok(e)
                }
            },
        }
    }
}

} // verus!
