use vstd::prelude::*;

use crate::display::digit_char;
use crate::display::spec_elems_text;
use crate::display::spec_i64_text;
use crate::display::spec_text;
use crate::display::spec_udec;
use crate::error::Error;
use crate::expression::SpecExpr;
use crate::expression::spec_expr_eq;
use crate::parser::all_digits;
use crate::parser::digit_val;
use crate::parser::digits_val;
use crate::parser::is_delim;
use crate::parser::is_digit;
use crate::parser::lemma_next_delim;
use crate::parser::next_delim;
use crate::parser::spec_classify;
use crate::parser::spec_parse;
use crate::parser::spec_parse_i64;
use crate::parser::spec_tok;

verus! {

// This module proves the parsing round trip: re-displaying a parsed tree
// of plain data and re-parsing the text yields the same tree. The only
// trees excluded are those no parse can produce or whose literals are
// ambiguous: function values, and symbols that are empty, contain a
// delimiter, or read as a number, boolean or nil literal.

/// A symbol name that parses back as the same symbol: non-empty, free of
/// delimiters, and not mistakable for a number, boolean or nil literal.
pub open spec fn plain_symbol(s: Seq<char>) -> bool {
    &&& s.len() > 0
    &&& (forall|k: int| 0 <= k < s.len() ==> !is_delim(#[trigger] s[k]))
    &&& spec_parse_i64(s) is None
    &&& s != "true"@
    &&& s != "false"@
    &&& s != "nil"@
}

/// A tree whose canonical text parses back to the same tree: no function
/// values, and every symbol plain.
pub open spec fn round_trippable(e: SpecExpr) -> bool
    decreases e,
{
    match e {
        SpecExpr::Bool(_) => true,
        SpecExpr::Nil => true,
        SpecExpr::Number(_) => true,
        SpecExpr::Symbol(s) => plain_symbol(s),
        SpecExpr::List(l) => forall|i: int|
            0 <= i < l.len() ==> round_trippable(#[trigger] l[i]),
        SpecExpr::Vector(l) => forall|i: int|
            0 <= i < l.len() ==> round_trippable(#[trigger] l[i]),
        SpecExpr::Function(_, _) => false,
    }
}

/// A digit character is a digit and carries its value.
proof fn lemma_digit_char(d: int)
    requires
        0 <= d <= 9,
    ensures
        is_digit(digit_char(d)),
        digit_val(digit_char(d)) == d,
        !is_delim(digit_char(d)),
{
}

/// Two texts that agree on a window have the same digit value over it.
proof fn lemma_digits_val_offset(s: Seq<char>, t: Seq<char>, from_s: int, from_t: int, len: int)
    requires
        0 <= len,
        forall|k: int| 0 <= k < len ==> s[from_s + k] == #[trigger] t[from_t + k],
    ensures
        digits_val(s, from_s, from_s + len) == digits_val(t, from_t, from_t + len),
    decreases len,
{
    if len > 0 {
        lemma_digits_val_offset(s, t, from_s, from_t, len - 1);
        assert(s[from_s + (len - 1)] == t[from_t + (len - 1)]);
    }
}

/// The decimal text of a natural number: non-empty, all digits, and its
/// digit value is the number again.
proof fn lemma_udec(n: nat)
    ensures
        spec_udec(n).len() >= 1,
        forall|k: int| 0 <= k < spec_udec(n).len() ==> is_digit(#[trigger] spec_udec(n)[k]),
        digits_val(spec_udec(n), 0, spec_udec(n).len() as int) == n,
    decreases n,
{
    if n < 10 {
        lemma_digit_char(n as int);
        assert(spec_udec(n) =~= seq![digit_char(n as int)]);
        assert(digits_val(spec_udec(n), 0, 0) == 0);
        assert(digits_val(spec_udec(n), 0, 1) == digit_val(spec_udec(n)[0]));
    } else {
        lemma_udec(n / 10);
        lemma_digit_char((n % 10) as int);
        let a = spec_udec(n / 10);
        let w = spec_udec(n);
        assert(w =~= a + seq![digit_char((n % 10) as int)]);
        assert(forall|k: int| 0 <= k < a.len() ==> #[trigger] w[k] == a[k]);
        lemma_digits_val_offset(w, a, 0, 0, a.len() as int);
        assert(digits_val(w, 0, w.len() as int) == digits_val(w, 0, a.len() as int) * 10
            + digit_val(w[a.len() as int]));
        assert(digits_val(w, 0, w.len() as int) == (n / 10) * 10 + (n % 10));
    }
}

/// The decimal text of a signed number parses back to the same number and
/// holds no delimiter, sign-leading text aside only for negatives.
proof fn lemma_number_text(n: i64)
    ensures
        spec_parse_i64(spec_i64_text(n as int)) == Some(n),
        spec_i64_text(n as int).len() >= 1,
        forall|k: int|
            0 <= k < spec_i64_text(n as int).len() ==> !is_delim(
                #[trigger] spec_i64_text(n as int)[k],
            ),
{
    let t = spec_i64_text(n as int);
    if n >= 0 {
        lemma_udec(n as nat);
        assert(t == spec_udec(n as nat));
        assert(is_digit(t[0]));
        assert(t[0] != '-' && t[0] != '+');
        assert(all_digits(t, 0, t.len() as int));
        assert(digits_val(t, 0, t.len() as int) == n);
    } else {
        let m = (-(n as int)) as nat;
        lemma_udec(m);
        let a = spec_udec(m);
        assert(t =~= seq!['-'] + a);
        assert(t[0] == '-');
        assert(forall|k: int| 0 <= k < a.len() ==> #[trigger] t[1 + k] == a[k]);
        assert forall|k: int| 1 <= k < t.len() implies is_digit(#[trigger] t[k]) by {
            assert(t[k] == a[k - 1]);
        }
        assert(all_digits(t, 1, t.len() as int));
        lemma_digits_val_offset(t, a, 1, 0, a.len() as int);
        assert(digits_val(t, 1, t.len() as int) == m);
        assert(spec_parse_i64(t) == Some(n));
        assert(!is_delim('-'));
    }
}

} // verus!

verus! {

/// The delimiter characters and their code points, and their mutual
/// distinctness.
proof fn lemma_char_codes()
    ensures
        is_delim(' ') && is_delim('(') && is_delim(')') && is_delim('[') && is_delim(']'),
        ' ' != '(' && ' ' != ')' && ' ' != '[' && ' ' != ']',
        '(' != ')' && '(' != '[' && '(' != ']',
        ')' != '[' && ')' != ']',
        '[' != ']',
{
    assert((' ' as u32) == 32 && ('(' as u32) == 40 && (')' as u32) == 41 && ('[' as u32) == 91
        && (']' as u32) == 93);
}

/// An empty token is no atom at all.
proof fn lemma_classify_empty()
    ensures
        spec_classify(Seq::<char>::empty()) is None,
{
    reveal_strlit("true");
    reveal_strlit("false");
    reveal_strlit("nil");
    assert(Seq::<char>::empty().len() == 0);
}

/// A character with none of the delimiter code points is no delimiter.
proof fn lemma_not_delim(c: char)
    requires
        (c as u32) != 32,
        (c as u32) != 9,
        (c as u32) != 10,
        (c as u32) != 13,
        (c as u32) != 40,
        (c as u32) != 41,
        (c as u32) != 91,
        (c as u32) != 93,
    ensures
        !is_delim(c),
{
    assert((' ' as u32) == 32 && ('\t' as u32) == 9 && ('\n' as u32) == 10 && ('\r' as u32) == 13);
    assert(('(' as u32) == 40 && (')' as u32) == 41 && ('[' as u32) == 91 && (']' as u32) == 93);
}

/// The canonical text of an atom: non-empty, free of delimiters, and it
/// classifies back to the very atom.
proof fn lemma_atom_text(e: SpecExpr)
    requires
        round_trippable(e),
        !(e is List),
        !(e is Vector),
    ensures
        spec_text(e).len() >= 1,
        forall|k: int| 0 <= k < spec_text(e).len() ==> !is_delim(#[trigger] spec_text(e)[k]),
        spec_classify(spec_text(e)) == Some(e),
{
    reveal_strlit("true");
    reveal_strlit("false");
    reveal_strlit("nil");
    let t = spec_text(e);
    match e {
        SpecExpr::Number(n) => {
            lemma_number_text(n);
        },
        SpecExpr::Bool(b) => {
            if b {
                assert(t =~= "true"@);
                assert((t[0] as u32) == 116);
                assert(t[0] != '-' && t[0] != '+') by {
                    assert(('-' as u32) == 45 && ('+' as u32) == 43);
                }
                assert(!is_digit(t[0]));
                assert(spec_parse_i64(t) is None);
                assert forall|k: int| 0 <= k < t.len() implies !is_delim(#[trigger] t[k]) by {
                    assert((t[0] as u32) == 116 && (t[1] as u32) == 114 && (t[2] as u32) == 117
                        && (t[3] as u32) == 101);
                    lemma_not_delim(t[k]);
                }
            } else {
                assert(t =~= "false"@);
                assert((t[0] as u32) == 102);
                assert(t[0] != '-' && t[0] != '+') by {
                    assert(('-' as u32) == 45 && ('+' as u32) == 43);
                }
                assert(!is_digit(t[0]));
                assert(spec_parse_i64(t) is None);
                assert(t != "true"@);
                assert forall|k: int| 0 <= k < t.len() implies !is_delim(#[trigger] t[k]) by {
                    assert((t[0] as u32) == 102 && (t[1] as u32) == 97 && (t[2] as u32) == 108 && (
                    t[3] as u32) == 115 && (t[4] as u32) == 101);
                    lemma_not_delim(t[k]);
                }
            }
        },
        SpecExpr::Nil => {
            assert(t =~= "nil"@);
            assert((t[0] as u32) == 110);
            assert(t[0] != '-' && t[0] != '+') by {
                assert(('-' as u32) == 45 && ('+' as u32) == 43);
            }
            assert(!is_digit(t[0]));
            assert(spec_parse_i64(t) is None);
            assert(t != "true"@ && t != "false"@);
            assert forall|k: int| 0 <= k < t.len() implies !is_delim(#[trigger] t[k]) by {
                assert((t[0] as u32) == 110 && (t[1] as u32) == 105 && (t[2] as u32) == 108);
                lemma_not_delim(t[k]);
            }
        },
        SpecExpr::Symbol(s) => {
            assert(t == s);
        },
        _ => {},
    }
}

/// Where no delimiter stands before position `d` and one stands at it,
/// `next_delim` finds exactly `d`.
proof fn lemma_next_delim_exact(s: Seq<char>, from: int, d: int)
    requires
        0 <= from <= d < s.len(),
        forall|k: int| from <= k < d ==> !is_delim(#[trigger] s[k]),
        is_delim(s[d]),
    ensures
        next_delim(s, from) == Some(d),
    decreases d - from,
{
    if from < d {
        lemma_next_delim_exact(s, from + 1, d);
    }
}

/// The text still to consume at one nesting level, from element `i` on:
/// each element's text with a trailing space, then the closing bracket.
pub open spec fn rest_text(l: Seq<SpecExpr>, i: int, close: char) -> Seq<char>
    decreases l, 1int, l.len() - i,
{
    if i < 0 || i >= l.len() {
        seq![close]
    } else {
        spec_text(l[i]) + seq![' '] + rest_text(l, i + 1, close)
    }
}

/// A level's element texts with the closing pair appended read as one
/// leading space before the level's remaining text.
proof fn lemma_elems_rest(l: Seq<SpecExpr>, i: int, close: char)
    requires
        0 <= i <= l.len(),
    ensures
        spec_elems_text(l, i) + seq![' ', close] =~= seq![' '] + rest_text(l, i, close),
    decreases l.len() - i,
{
    if i < l.len() {
        lemma_elems_rest(l, i + 1, close);
        let lhs = spec_elems_text(l, i) + seq![' ', close];
        assert(spec_elems_text(l, i + 1) + seq![' ', close] == seq![' '] + rest_text(
            l,
            i + 1,
            close,
        ));
        assert(lhs =~= seq![' '] + spec_text(l[i]) + (spec_elems_text(l, i + 1) + seq![
            ' ',
            close,
        ]));
        assert(lhs =~= seq![' '] + (spec_text(l[i]) + seq![' '] + rest_text(l, i + 1, close)));
    }
}

} // verus!

verus! {

/// The remaining text of a level is never empty: it at least closes.
proof fn lemma_rest_len(l: Seq<SpecExpr>, i: int, close: char)
    ensures
        rest_text(l, i, close).len() >= 1,
    decreases l.len() - i,
{
    if 0 <= i < l.len() {
        lemma_rest_len(l, i + 1, close);
    }
}

/// A window of a window of the text is the matching window of the known
/// contents.
proof fn lemma_window(s: Seq<char>, p: int, w: Seq<char>, q: int, w2: Seq<char>)
    requires
        0 <= p,
        p + w.len() <= s.len(),
        s.subrange(p, p + w.len() as int) == w,
        p <= q,
        q + w2.len() <= p + w.len(),
        w2 =~= w.subrange(q - p, q - p + w2.len() as int),
    ensures
        s.subrange(q, q + w2.len() as int) == w2,
{
    assert forall|k: int|
        0 <= k < w2.len() implies s.subrange(q, q + w2.len() as int)[k] == w2[k] by {
        assert(s.subrange(p, p + w.len() as int)[q - p + k] == w[q - p + k]);
        assert(w.subrange(q - p, q - p + w2.len() as int)[k] == w[q - p + k]);
    }
    assert(s.subrange(q, q + w2.len() as int) =~= w2);
}

/// One character of a known window of the text.
proof fn lemma_window_char(s: Seq<char>, p: int, w: Seq<char>, j: int)
    requires
        0 <= p,
        p + w.len() <= s.len(),
        s.subrange(p, p + w.len() as int) == w,
        0 <= j < w.len(),
    ensures
        s[p + j] == w[j],
{
    assert(s.subrange(p, p + w.len() as int)[j] == w[j]);
}

/// Reading one nesting level from just after its opening bracket: the
/// tokenizer consumes every element text and the closing pair, and yields
/// the level's elements appended to the accumulator.
proof fn lemma_tok_elems(s: Seq<char>, p: int, acc: Seq<SpecExpr>, l: Seq<SpecExpr>, close: char)
    requires
        0 <= p,
        p + spec_elems_text(l, 0).len() + 2 <= s.len(),
        s.subrange(p, p + spec_elems_text(l, 0).len() + 2) == spec_elems_text(l, 0) + seq![
            ' ',
            close,
        ],
        close == ')' || close == ']',
        forall|j: int| 0 <= j < l.len() ==> round_trippable(#[trigger] l[j]),
    ensures
        spec_tok(s, p, acc) == Ok::<(int, SpecExpr), Error>(
            (
                p + spec_elems_text(l, 0).len() + 2,
                if close == ')' {
                    SpecExpr::List(acc + l)
                } else {
                    SpecExpr::Vector(acc + l)
                },
            ),
        ),
    decreases spec_elems_text(l, 0).len() + 2, 1int,
{
    lemma_char_codes();
    lemma_classify_empty();
    lemma_elems_rest(l, 0, close);
    let seg = spec_elems_text(l, 0) + seq![' ', close];
    let r = rest_text(l, 0, close);
    assert(seg =~= seq![' '] + r);
    assert(seg.len() == 1 + r.len());
    lemma_window_char(s, p, seg, 0);
    assert(s[p] == ' ');
    lemma_next_delim_exact(s, p, p);
    assert(s.subrange(p, p) =~= Seq::<char>::empty());
    assert(r =~= seg.subrange(1, 1 + r.len() as int));
    lemma_window(s, p, seg, p + 1, r);
    lemma_tok_rest(s, p + 1, acc, l, 0, close);
    assert(l.skip(0) =~= l);
}

/// Reading a level's remaining text from element `i` on: the tokenizer
/// consumes it and yields the remaining elements appended to the
/// accumulator, stopping just past the closing bracket.
proof fn lemma_tok_rest(
    s: Seq<char>,
    p: int,
    acc: Seq<SpecExpr>,
    l: Seq<SpecExpr>,
    i: int,
    close: char,
)
    requires
        0 <= p,
        0 <= i <= l.len(),
        p + rest_text(l, i, close).len() <= s.len(),
        s.subrange(p, p + rest_text(l, i, close).len() as int) == rest_text(l, i, close),
        close == ')' || close == ']',
        forall|j: int| 0 <= j < l.len() ==> round_trippable(#[trigger] l[j]),
    ensures
        spec_tok(s, p, acc) == Ok::<(int, SpecExpr), Error>(
            (
                p + rest_text(l, i, close).len(),
                if close == ')' {
                    SpecExpr::List(acc + l.skip(i))
                } else {
                    SpecExpr::Vector(acc + l.skip(i))
                },
            ),
        ),
    decreases rest_text(l, i, close).len(), 0int,
{
    lemma_char_codes();
    lemma_classify_empty();
    let r = rest_text(l, i, close);
    if i == l.len() {
        assert(r =~= seq![close]);
        lemma_window_char(s, p, r, 0);
        assert(s[p] == close);
        lemma_next_delim_exact(s, p, p);
        assert(s.subrange(p, p) =~= Seq::<char>::empty());
        assert(acc + l.skip(i) =~= acc);
        assert(spec_tok(s, p, acc) == Ok::<(int, SpecExpr), Error>(
            (
                p + 1,
                if close == ')' {
                    SpecExpr::List(acc)
                } else {
                    SpecExpr::Vector(acc)
                },
            ),
        ));
    } else {
        let e = l[i];
        let t = spec_text(e);
        let r2 = rest_text(l, i + 1, close);
        lemma_rest_len(l, i + 1, close);
        assert(r == t + seq![' '] + r2);
        assert(r.len() == t.len() + 1 + r2.len());
        assert(round_trippable(e));
        match e {
            SpecExpr::List(l2) => {
                reveal_strlit("(");
                reveal_strlit(" )");
                let inner = spec_elems_text(l2, 0);
                assert("("@ =~= seq!['(']);
                assert(" )"@ =~= seq![' ', ')']);
                assert(t =~= seq!['('] + inner + seq![' ', ')']);
                assert(t.len() == inner.len() + 3);
                lemma_window_char(s, p, r, 0);
                assert(r[0] == t[0] && t[0] == '(');
                assert(s[p] == '(');
                lemma_next_delim_exact(s, p, p);
                assert(s.subrange(p, p) =~= Seq::<char>::empty());
                let iseg = inner + seq![' ', ')'];
                assert(iseg =~= r.subrange(1, 1 + iseg.len() as int));
                lemma_window(s, p, r, p + 1, iseg);
                lemma_tok_elems(s, p + 1, Seq::<SpecExpr>::empty(), l2, ')');
                let q = p + 1 + inner.len() + 2;
                assert(Seq::<SpecExpr>::empty() + l2 =~= l2);
                assert(spec_tok(s, p + 1, Seq::<SpecExpr>::empty()) == Ok::<
                    (int, SpecExpr),
                    Error,
                >((q, SpecExpr::List(l2))));
                assert(q == p + t.len());
                lemma_window_char(s, p, r, t.len() as int);
                assert(r[t.len() as int] == ' ');
                assert(s[q] == ' ');
                lemma_next_delim_exact(s, q, q);
                assert(s.subrange(q, q) =~= Seq::<char>::empty());
                assert(r2 =~= r.subrange(t.len() as int + 1, t.len() as int + 1 + r2.len() as int));
                lemma_window(s, p, r, q + 1, r2);
                lemma_tok_rest(s, q + 1, acc.push(e), l, i + 1, close);
                assert(acc.push(e) + l.skip(i + 1) =~= acc + l.skip(i));
                assert(p + r.len() == q + 1 + r2.len());
                assert(spec_tok(s, q, acc.push(e)) == spec_tok(s, q + 1, acc.push(e)));
                assert(spec_tok(s, p, acc) == spec_tok(s, q, acc.push(e)));
            },
            SpecExpr::Vector(l2) => {
                reveal_strlit("[");
                reveal_strlit(" ]");
                let inner = spec_elems_text(l2, 0);
                assert("["@ =~= seq!['[']);
                assert(" ]"@ =~= seq![' ', ']']);
                assert(t =~= seq!['['] + inner + seq![' ', ']']);
                assert(t.len() == inner.len() + 3);
                lemma_window_char(s, p, r, 0);
                assert(r[0] == t[0] && t[0] == '[');
                assert(s[p] == '[');
                lemma_next_delim_exact(s, p, p);
                assert(s.subrange(p, p) =~= Seq::<char>::empty());
                let iseg = inner + seq![' ', ']'];
                assert(iseg =~= r.subrange(1, 1 + iseg.len() as int));
                lemma_window(s, p, r, p + 1, iseg);
                lemma_tok_elems(s, p + 1, Seq::<SpecExpr>::empty(), l2, ']');
                let q = p + 1 + inner.len() + 2;
                assert(Seq::<SpecExpr>::empty() + l2 =~= l2);
                assert(spec_tok(s, p + 1, Seq::<SpecExpr>::empty()) == Ok::<
                    (int, SpecExpr),
                    Error,
                >((q, SpecExpr::Vector(l2))));
                assert(q == p + t.len());
                lemma_window_char(s, p, r, t.len() as int);
                assert(r[t.len() as int] == ' ');
                assert(s[q] == ' ');
                lemma_next_delim_exact(s, q, q);
                assert(s.subrange(q, q) =~= Seq::<char>::empty());
                assert(r2 =~= r.subrange(t.len() as int + 1, t.len() as int + 1 + r2.len() as int));
                lemma_window(s, p, r, q + 1, r2);
                lemma_tok_rest(s, q + 1, acc.push(e), l, i + 1, close);
                assert(acc.push(e) + l.skip(i + 1) =~= acc + l.skip(i));
                assert(p + r.len() == q + 1 + r2.len());
                assert(spec_tok(s, q, acc.push(e)) == spec_tok(s, q + 1, acc.push(e)));
                assert(spec_tok(s, p, acc) == spec_tok(s, q, acc.push(e)));
            },
            _ => {
                lemma_atom_text(e);
                let d = p + t.len() as int;
                lemma_window_char(s, p, r, t.len() as int);
                assert(r[t.len() as int] == ' ');
                assert(s[d] == ' ');
                assert forall|k: int| p <= k < d implies !is_delim(#[trigger] s[k]) by {
                    lemma_window_char(s, p, r, k - p);
                    assert(s[k] == r[k - p]);
                    assert(r[k - p] == t[k - p]);
                }
                assert(is_delim(' '));
                lemma_next_delim_exact(s, p, d);
                assert(t =~= r.subrange(0, t.len() as int));
                lemma_window(s, p, r, p, t);
                assert(s.subrange(p, d) == t);
                assert(r2 =~= r.subrange(t.len() as int + 1, t.len() as int + 1 + r2.len() as int));
                lemma_window(s, p, r, d + 1, r2);
                lemma_tok_rest(s, d + 1, acc.push(e), l, i + 1, close);
                assert(acc.push(e) + l.skip(i + 1) =~= acc + l.skip(i));
                assert(p + r.len() == d + 1 + r2.len());
                assert(spec_classify(s.subrange(p, d)) == Some(e));
                assert(spec_tok(s, p, acc) == spec_tok(s, d + 1, acc.push(e)));
            },
        }
    }
}

/// Law: the parsing round trip. Re-displaying a parsed list of plain data
/// and re-parsing the text yields the very same tree, for every list
/// without function values or ambiguous symbol literals.
pub proof fn lemma_parse_round_trip(e: SpecExpr)
    requires
        e is List,
        round_trippable(e),
    ensures
        spec_parse(spec_text(e)) == Ok::<SpecExpr, Error>(e),
{
    reveal_strlit("(");
    reveal_strlit(" )");
    match e {
        SpecExpr::List(l) => {
            let s = spec_text(e);
            assert("("@ =~= seq!['(']);
            assert(" )"@ =~= seq![' ', ')']);
            assert(s =~= seq!['('] + spec_elems_text(l, 0) + seq![' ', ')']);
            assert(s[0] == '(');
            assert(s.len() == spec_elems_text(l, 0).len() + 3);
            let seg = spec_elems_text(l, 0) + seq![' ', ')'];
            assert(s.subrange(1, 1 + seg.len() as int) =~= seg);
            lemma_tok_elems(s, 1, Seq::<SpecExpr>::empty(), l, ')');
            assert(Seq::<SpecExpr>::empty() + l =~= l);
        },
        _ => {},
    }
}

} // verus!

verus! {

/// Law: structural equality is reflexive on every tree free of function
/// values; in particular a re-parsed tree is structurally equal to the
/// displayed one.
pub proof fn lemma_expr_eq_reflexive(e: SpecExpr)
    requires
        round_trippable(e),
    ensures
        spec_expr_eq(e, e),
    decreases e,
{
    match e {
        SpecExpr::List(l) => {
            assert forall|k: int| 0 <= k < l.len() implies spec_expr_eq(#[trigger] l[k], l[k]) by {
                lemma_expr_eq_reflexive(l[k]);
            }
        },
        SpecExpr::Vector(l) => {
            assert forall|k: int| 0 <= k < l.len() implies spec_expr_eq(#[trigger] l[k], l[k]) by {
                lemma_expr_eq_reflexive(l[k]);
            }
        },
        _ => {},
    }
}

} // verus!

verus! {

/// An atom read from a delimiter-free token is round-trippable: a token
/// that reads as a symbol is non-empty, free of delimiters, and no number,
/// boolean or nil literal, or it would have read as one.
proof fn lemma_classify_trippable(t: Seq<char>)
    requires
        forall|k: int| 0 <= k < t.len() ==> !is_delim(#[trigger] t[k]),
    ensures
        spec_classify(t) matches Some(e) ==> round_trippable(e),
{
}

/// Every form the tokenizer reads is round-trippable, provided the
/// elements already accumulated are.
proof fn lemma_tok_trippable(s: Seq<char>, p: int, acc: Seq<SpecExpr>)
    requires
        0 <= p,
        forall|j: int| 0 <= j < acc.len() ==> round_trippable(#[trigger] acc[j]),
    ensures
        spec_tok(s, p, acc) matches Ok((q, e)) ==> round_trippable(e) && (e is List || e
            is Vector),
    decreases s.len() - p, 1int,
{
    if p >= s.len() {
    } else {
        lemma_next_delim(s, p);
        match next_delim(s, p) {
            None => {},
            Some(d) => {
                let tok = s.subrange(p, d);
                assert forall|k: int| 0 <= k < tok.len() implies !is_delim(#[trigger] tok[k]) by {
                    assert(tok[k] == s[p + k]);
                }
                lemma_classify_trippable(tok);
                let acc2 = match spec_classify(tok) {
                    Some(e) => acc.push(e),
                    None => acc,
                };
                assert(forall|j: int| 0 <= j < acc2.len() ==> round_trippable(#[trigger] acc2[j]));
                let c = s[d];
                if c == '(' || c == '[' {
                    lemma_tok_trippable(s, d + 1, Seq::empty());
                    match spec_tok(s, d + 1, Seq::empty()) {
                        Err(_) => {},
                        Ok((q, e)) => {
                            let q2 = if q < d + 1 {
                                d + 1
                            } else if q > s.len() {
                                s.len() as int
                            } else {
                                q
                            };
                            lemma_tok_trippable(s, q2, acc2.push(e));
                        },
                    }
                } else if c == ')' || c == ']' {
                } else {
                    lemma_tok_trippable(s, d + 1, acc2);
                }
            },
        }
    }
}

/// Law: the parsing round trip for parsed text. Whatever a source text
/// successfully parses to — a successful parse is always a single
/// top-level list — re-displaying it and re-parsing the canonical text
/// yields the very same tree.
pub proof fn lemma_parsed_text_round_trip(s: Seq<char>, e: SpecExpr)
    requires
        spec_parse(s) == Ok::<SpecExpr, Error>(e),
    ensures
        spec_parse(spec_text(e)) == Ok::<SpecExpr, Error>(e),
{
    lemma_tok_trippable(s, 1, Seq::empty());
    lemma_parse_round_trip(e);
}

} // verus!
