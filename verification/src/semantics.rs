use vstd::prelude::*;

use crate::environment::SpecEnv;
use crate::error::Error;
use crate::expression::Builtin;
use crate::expression::ExprOrder;
use crate::expression::SpecExpr;
use crate::expression::spec_cmp;
use crate::expression::spec_expr_eq;
use crate::expression::spec_partial_cmp;
use crate::expression::spec_to_bool;
use crate::expression::spec_to_i64;
use crate::expression::spec_to_items;
use crate::expression::spec_to_symbol;

verus! {

// The functions below are the mathematical semantics of the language: a
// big-step interpreter over models, mirroring the executable evaluator
// step for step. Because a script can loop forever, every function takes
// a fuel bound; when it runs out, evaluation reports `StackError`, the
// recursion-depth failure. The executable evaluator is verified to return
// exactly what these functions compute.
//
// An outcome pairs the environment after the step with its result.

/// Whitespace, as parameter specs and source text delimit words: space,
/// tab, newline and carriage return.
pub open spec fn is_ws(c: char) -> bool {
    c == ' ' || c == '\t' || c == '\n' || c == '\r'
}

/// The first position at or after `i` holding character `c`, if any.
pub open spec fn char_index_of(s: Seq<char>, c: char, i: int) -> Option<int>
    decreases s.len() - i,
{
    if i < 0 || i >= s.len() {
        None
    } else if s[i] == c {
        Some(i)
    } else {
        char_index_of(s, c, i + 1)
    }
}

/// The first position at or after `i` holding a non-whitespace character,
/// or the length if there is none.
pub open spec fn next_non_ws(s: Seq<char>, i: int) -> int
    decreases s.len() - i,
{
    if i < 0 {
        next_non_ws(s, 0)
    } else if i >= s.len() {
        s.len() as int
    } else if !is_ws(s[i]) {
        i
    } else {
        next_non_ws(s, i + 1)
    }
}

/// The first position at or after `i` holding a whitespace character, or
/// the length if there is none.
pub open spec fn next_ws(s: Seq<char>, i: int) -> int
    decreases s.len() - i,
{
    if i < 0 {
        next_ws(s, 0)
    } else if i >= s.len() {
        s.len() as int
    } else if is_ws(s[i]) {
        i
    } else {
        next_ws(s, i + 1)
    }
}

/// `next_non_ws` stays between `i` and the length, skips only whitespace,
/// and stops only at non-whitespace.
pub proof fn lemma_next_non_ws(s: Seq<char>, i: int)
    requires
        0 <= i <= s.len(),
    ensures
        i <= next_non_ws(s, i) <= s.len(),
        forall|k: int| i <= k < next_non_ws(s, i) ==> is_ws(#[trigger] s[k]),
        next_non_ws(s, i) < s.len() ==> !is_ws(s[next_non_ws(s, i)]),
    decreases s.len() - i,
{
    if i >= s.len() {
    } else if !is_ws(s[i]) {
    } else {
        lemma_next_non_ws(s, i + 1);
    }
}

/// `next_ws` stays between `i` and the length, skips only non-whitespace,
/// and stops only at whitespace.
pub proof fn lemma_next_ws(s: Seq<char>, i: int)
    requires
        0 <= i <= s.len(),
    ensures
        i <= next_ws(s, i) <= s.len(),
        forall|k: int| i <= k < next_ws(s, i) ==> !is_ws(#[trigger] s[k]),
        next_ws(s, i) < s.len() ==> is_ws(s[next_ws(s, i)]),
    decreases s.len() - i,
{
    if i >= s.len() {
    } else if is_ws(s[i]) {
    } else {
        lemma_next_ws(s, i + 1);
    }
}

/// The whitespace-separated words of `s` from position `i` on, in order.
pub open spec fn split_words_at(s: Seq<char>, i: int) -> Seq<Seq<char>>
    decreases s.len() - i,
    via split_words_at_via
{
    if i < 0 {
        split_words_at(s, 0)
    } else {
        let j = next_non_ws(s, i);
        if j >= s.len() {
            Seq::empty()
        } else {
            let k = next_ws(s, j);
            seq![s.subrange(j, k)] + split_words_at(s, k)
        }
    }
}

#[via_fn]
proof fn split_words_at_via(s: Seq<char>, i: int) {
    if 0 <= i && i <= s.len() {
        lemma_next_non_ws(s, i);
        let j = next_non_ws(s, i);
        if j < s.len() {
            lemma_next_ws(s, j);
        }
    }
}

/// The whitespace-separated words of `s`, in order.
pub open spec fn split_words(s: Seq<char>) -> Seq<Seq<char>> {
    split_words_at(s, 0)
}

/// A parameter spec split at its first `&`: the named parameter words
/// before it, and, when the `&` is present, the words after it.
pub open spec fn spec_split_params(params: Seq<char>) -> (Seq<Seq<char>>, Option<Seq<Seq<char>>>) {
    match char_index_of(params, '&', 0) {
        Some(i) => (
            split_words(params.subrange(0, i)),
            Some(split_words(params.subrange(i + 1, params.len() as int))),
        ),
        None => (split_words(params), None),
    }
}

/// An evaluation outcome: the environment after the step, and its result.
pub type Outcome = (SpecEnv, Result<SpecExpr, Error>);

/// A binding outcome: the environment after the step, and success or the
/// error that stopped it.
pub type BindOutcome = (SpecEnv, Result<(), Error>);

/// How a call form's head resolves: the builtin table first, then the
/// data stack, and only to a `Function` value; anything else is
/// `ExpectedFunction`.
pub open spec fn spec_resolve(env: SpecEnv, name: Seq<char>) -> Result<(Seq<char>, Builtin), Error> {
    match env.find_builtin(name) {
        Some(SpecExpr::Function(p, t)) => Ok((p, t)),
        _ => match env.find_data(name) {
            Some(SpecExpr::Function(p, t)) => Ok((p, t)),
            _ => Err(Error::ExpectedFunction),
        },
    }
}

/// The named parameter words bound right to left: each takes the last
/// remaining call element; after all are bound exactly the head must
/// remain, else `TooFewArgs`.
pub open spec fn spec_bind_named(env: SpecEnv, named: Seq<Seq<char>>, rest: Seq<SpecExpr>) -> BindOutcome
    decreases named.len(),
{
    if named.len() == 0 {
        if rest.len() != 1 {
            (env, Err(Error::TooFewArgs))
        } else {
            (env, Ok(()))
        }
    } else {
        if rest.len() == 0 {
            (env, Err(Error::TooFewArgs))
        } else {
            let env1 = env.push_stack(named.last(), rest.last());
            spec_bind_named(env1, named.drop_last(), rest.drop_last())
        }
    }
}

/// The argument-binding algorithm, run in the callee's fresh frame.
///
/// `items` is the whole call form, head included. With a positional
/// section, at most one positional word is allowed (`UnexpectedSymbol`
/// otherwise); the elements beyond the named slots are collected off the
/// tail, so they sit in reverse call order, and pushed as one `Vector`
/// under the positional word, or under `&` if none was given. Without a
/// positional section, extra elements are `TooManyArgs`. The named words
/// then bind right to left.
pub open spec fn spec_bind(env: SpecEnv, params: Seq<char>, items: Seq<SpecExpr>) -> BindOutcome {
    let (named, pos_opt) = spec_split_params(params);
    let offset = 1 + named.len();
    match pos_opt {
        Some(pos_words) => {
            if pos_words.len() > 1 {
                (env, Err(Error::UnexpectedSymbol))
            } else {
                if items.len() > offset {
                    let pos_name = if pos_words.len() == 1 {
                        pos_words[0]
                    } else {
                        "&"@
                    };
                    let pos_args = items.subrange(offset as int, items.len() as int).reverse();
                    let env1 = env.push_stack(pos_name, SpecExpr::Vector(pos_args));
                    spec_bind_named(env1, named, items.subrange(0, offset as int))
                } else {
                    spec_bind_named(env, named, items)
                }
            }
        },
        None => {
            if items.len() > offset {
                (env, Err(Error::TooManyArgs))
            } else {
                spec_bind_named(env, named, items)
            }
        },
    }
}

/// One evaluation step.
///
/// An empty list is nil. A non-empty list is a call: the head must be a
/// symbol, a fresh frame is pushed, the head resolves through
/// `spec_resolve`, the arguments bind through `spec_bind`, the body runs,
/// and the frame is dropped again on every path, success or failure. A
/// bare symbol resolves through the data stack alone. Everything else
/// evaluates to itself. Exhausted fuel is `StackError`.
pub open spec fn spec_eval(env: SpecEnv, e: SpecExpr, fuel: nat) -> Outcome
    decreases fuel, 0int, 0int,
{
    if fuel == 0 {
        (env, Err(Error::StackError))
    } else {
        match e {
            SpecExpr::List(items) => {
                if items.len() == 0 {
                    (env, Ok(SpecExpr::Nil))
                } else {
                    match spec_to_symbol(items[0]) {
                        Err(er) => (env, Err(er)),
                        Ok(name) => {
                            let env1 = env.push_frame();
                            match spec_resolve(env1, name) {
                                Err(er) => (env1.pop_frame(), Err(er)),
                                Ok((params, tag)) => {
                                    let (env2, bres) = spec_bind(env1, params, items);
                                    match bres {
                                        Err(er) => (env2.pop_frame(), Err(er)),
                                        Ok(()) => {
                                            let (env3, r) = spec_apply(
                                                tag,
                                                env2,
                                                (fuel - 1) as nat,
                                            );
                                            (env3.pop_frame(), r)
                                        },
                                    }
                                },
                            }
                        },
                    }
                }
            },
            SpecExpr::Symbol(s) => match env.find_data(s) {
                Some(v) => (env, Ok(v)),
                None => (env, Err(Error::DataNotFound)),
            },
            _ => (env, Ok(e)),
        }
    }
}

/// The elements at positions `j` down to `0` evaluated in turn, the value
/// of the last evaluation (position `0`) returned; `acc` stands in when
/// there is none left.
pub open spec fn spec_eval_rev(env: SpecEnv, items: Seq<SpecExpr>, j: int, acc: SpecExpr, fuel: nat) -> Outcome
    decreases fuel, 1int, j + 1,
{
    if j < 0 {
        (env, Ok(acc))
    } else {
        let (e1, r) = spec_eval(env, items[j], fuel);
        match r {
            Err(er) => (e1, Err(er)),
            Ok(v) => spec_eval_rev(e1, items, j - 1, v, fuel),
        }
    }
}

/// The binding pairs of a `let`, left to right: each name must be a
/// symbol, its expression is evaluated, and the value pushed into the
/// current frame, later pairs seeing earlier ones.
pub open spec fn spec_let_pairs(env: SpecEnv, bindings: Seq<SpecExpr>, i: int, fuel: nat) -> BindOutcome
    decreases fuel, 1int, bindings.len() - i,
{
    if i < 0 || i + 1 >= bindings.len() {
        (env, Ok(()))
    } else {
        match bindings[i] {
            SpecExpr::Symbol(name) => {
                let (e1, rv) = spec_eval(env, bindings[i + 1], fuel);
                match rv {
                    Err(er) => (e1, Err(er)),
                    Ok(val) => spec_let_pairs(e1.push_stack(name, val), bindings, i + 2, fuel),
                }
            },
            _ => (env, Err(Error::ExpectedSymbol)),
        }
    }
}

/// The prologue of a builtin declared `x & ys`: `x` popped (its absence
/// is `UnexpectedArgs`), then `ys` popped if present and opened as items.
pub open spec fn spec_pop_x_ys(env: SpecEnv) -> (SpecEnv, Result<(SpecExpr, Option<Seq<SpecExpr>>), Error>) {
    let (e1, rx) = env.pop_stack_if_named("x"@);
    match rx {
        Err(_) => (e1, Err(Error::UnexpectedArgs)),
        Ok(x) => {
            let (e2, ry) = e1.pop_stack_if_named("ys"@);
            match ry {
                Err(_) => (e2, Ok((x, None))),
                Ok(ysv) => match spec_to_items(ysv) {
                    Err(er) => (e2, Err(er)),
                    Ok(ys) => (e2, Ok((x, Some(ys)))),
                },
            }
        },
    }
}

/// The prologue of a builtin declared `&`: when the frame holds anything,
/// the aggregate under `&` is popped and opened as items.
pub open spec fn spec_pop_args(env: SpecEnv) -> (SpecEnv, Result<Option<Seq<SpecExpr>>, Error>) {
    if env.stack.len() > 0 && env.stack.last().len() > 0 {
        let (e1, r) = env.pop_stack_if_named("&"@);
        match r {
            Err(er) => (e1, Err(er)),
            Ok(v) => match spec_to_items(v) {
                Err(er) => (e1, Err(er)),
                Ok(items) => (e1, Ok(Some(items))),
            },
        }
    } else {
        (env, Ok(None))
    }
}

/// Checked addition folded over the elements from position `i` on, each
/// evaluated and converted to a number first; overflow is `MathError`.
pub open spec fn spec_fold_add(env: SpecEnv, items: Seq<SpecExpr>, i: int, acc: i64, fuel: nat) -> Outcome
    decreases fuel, 1int, items.len() - i,
{
    if i < 0 || i >= items.len() {
        (env, Ok(SpecExpr::Number(acc)))
    } else {
        let (e1, r) = spec_eval(env, items[i], fuel);
        match r {
            Err(er) => (e1, Err(er)),
            Ok(v) => match spec_to_i64(v) {
                Err(er) => (e1, Err(er)),
                Ok(n) => match acc.checked_add(n) {
                    Some(a2) => spec_fold_add(e1, items, i + 1, a2, fuel),
                    None => (e1, Err(Error::MathError)),
                },
            },
        }
    }
}

/// Checked multiplication folded over the elements from position `i` on.
pub open spec fn spec_fold_mul(env: SpecEnv, items: Seq<SpecExpr>, i: int, acc: i64, fuel: nat) -> Outcome
    decreases fuel, 1int, items.len() - i,
{
    if i < 0 || i >= items.len() {
        (env, Ok(SpecExpr::Number(acc)))
    } else {
        let (e1, r) = spec_eval(env, items[i], fuel);
        match r {
            Err(er) => (e1, Err(er)),
            Ok(v) => match spec_to_i64(v) {
                Err(er) => (e1, Err(er)),
                Ok(n) => match acc.checked_mul(n) {
                    Some(a2) => spec_fold_mul(e1, items, i + 1, a2, fuel),
                    None => (e1, Err(Error::MathError)),
                },
            },
        }
    }
}

/// Checked subtraction folded over the elements from position `i` on.
pub open spec fn spec_fold_sub(env: SpecEnv, items: Seq<SpecExpr>, i: int, acc: i64, fuel: nat) -> Outcome
    decreases fuel, 1int, items.len() - i,
{
    if i < 0 || i >= items.len() {
        (env, Ok(SpecExpr::Number(acc)))
    } else {
        let (e1, r) = spec_eval(env, items[i], fuel);
        match r {
            Err(er) => (e1, Err(er)),
            Ok(v) => match spec_to_i64(v) {
                Err(er) => (e1, Err(er)),
                Ok(n) => match acc.checked_sub(n) {
                    Some(a2) => spec_fold_sub(e1, items, i + 1, a2, fuel),
                    None => (e1, Err(Error::MathError)),
                },
            },
        }
    }
}

/// Checked division folded over the elements from position `i` on;
/// division by zero, and overflow, are `MathError`.
pub open spec fn spec_fold_div(env: SpecEnv, items: Seq<SpecExpr>, i: int, acc: i64, fuel: nat) -> Outcome
    decreases fuel, 1int, items.len() - i,
{
    if i < 0 || i >= items.len() {
        (env, Ok(SpecExpr::Number(acc)))
    } else {
        let (e1, r) = spec_eval(env, items[i], fuel);
        match r {
            Err(er) => (e1, Err(er)),
            Ok(v) => match spec_to_i64(v) {
                Err(er) => (e1, Err(er)),
                Ok(n) => match acc.checked_div(n) {
                    Some(a2) => spec_fold_div(e1, items, i + 1, a2, fuel),
                    None => (e1, Err(Error::MathError)),
                },
            },
        }
    }
}

/// Whether the chained comparison `tag` accepts the ordered pair `a`, `b`
/// under the partial order: incomparable pairs never hold.
pub open spec fn spec_rel_holds(tag: Builtin, a: SpecExpr, b: SpecExpr) -> bool {
    match tag {
        Builtin::CmpGt => spec_partial_cmp(a, b) == Some(ExprOrder::Greater),
        Builtin::CmpGe => spec_partial_cmp(a, b) == Some(ExprOrder::Greater) || spec_partial_cmp(
            a,
            b,
        ) == Some(ExprOrder::Equal),
        Builtin::CmpLt => spec_partial_cmp(a, b) == Some(ExprOrder::Less),
        Builtin::CmpLe => spec_partial_cmp(a, b) == Some(ExprOrder::Less) || spec_partial_cmp(
            a,
            b,
        ) == Some(ExprOrder::Equal),
        _ => false,
    }
}

/// A chained relational comparison folded over the elements at positions
/// `j` down to `0` (original call order): each is evaluated, the relation
/// is tested against the previous value, and every element is evaluated
/// even after the chain has failed.
pub open spec fn spec_fold_rel(env: SpecEnv, tag: Builtin, items: Seq<SpecExpr>, j: int, prev: SpecExpr, acc: bool, fuel: nat) -> Outcome
    decreases fuel, 1int, j + 1,
{
    if j < 0 {
        (env, Ok(SpecExpr::Bool(acc)))
    } else {
        let (e1, r) = spec_eval(env, items[j], fuel);
        match r {
            Err(er) => (e1, Err(er)),
            Ok(v) => spec_fold_rel(e1, tag, items, j - 1, v, acc && spec_rel_holds(tag, prev, v), fuel),
        }
    }
}

/// A chained structural-equality test folded over the elements from
/// position `i` on (reverse call order, as stored): every element is
/// evaluated, each compared with the previous value.
pub open spec fn spec_fold_eq(env: SpecEnv, items: Seq<SpecExpr>, i: int, prev: SpecExpr, acc: bool, fuel: nat) -> Outcome
    decreases fuel, 1int, items.len() - i,
{
    if i < 0 || i >= items.len() {
        (env, Ok(SpecExpr::Bool(acc)))
    } else {
        let (e1, r) = spec_eval(env, items[i], fuel);
        match r {
            Err(er) => (e1, Err(er)),
            Ok(v) => spec_fold_eq(e1, items, i + 1, v, acc && spec_expr_eq(prev, v), fuel),
        }
    }
}

/// Conjunction or disjunction folded over the elements from position `i`
/// on: every element is evaluated and must be a boolean; there is no
/// early exit.
pub open spec fn spec_fold_bool(env: SpecEnv, conj: bool, items: Seq<SpecExpr>, i: int, acc: bool, fuel: nat) -> Outcome
    decreases fuel, 1int, items.len() - i,
{
    if i < 0 || i >= items.len() {
        (env, Ok(SpecExpr::Bool(acc)))
    } else {
        let (e1, r) = spec_eval(env, items[i], fuel);
        match r {
            Err(er) => (e1, Err(er)),
            Ok(v) => match spec_to_bool(v) {
                Err(er) => (e1, Err(er)),
                Ok(b) => spec_fold_bool(
                    e1,
                    conj,
                    items,
                    i + 1,
                    if conj {
                        acc && b
                    } else {
                        acc || b
                    },
                    fuel,
                ),
            },
        }
    }
}

/// The greatest or least value among the evaluated elements from
/// position `i` on and the already evaluated `last` value: elements are
/// compared totally, an incomparable pair is an error; on ties the
/// greatest keeps the later value and the least the earlier.
pub open spec fn spec_fold_extreme(env: SpecEnv, greatest: bool, items: Seq<SpecExpr>, i: int, acc: SpecExpr, last: SpecExpr, fuel: nat) -> Outcome
    decreases fuel, 1int, items.len() - i,
{
    if i < 0 || i >= items.len() {
        match spec_cmp_keep(greatest, acc, last) {
            Err(er) => (env, Err(er)),
            Ok(v) => (env, Ok(v)),
        }
    } else {
        let (e1, r) = spec_eval(env, items[i], fuel);
        match r {
            Err(er) => (e1, Err(er)),
            Ok(v) => match spec_cmp_keep(greatest, acc, v) {
                Err(er) => (e1, Err(er)),
                Ok(kept) => spec_fold_extreme(e1, greatest, items, i + 1, kept, last, fuel),
            },
        }
    }
}

/// Which of an accumulated value and a later value survives one step of
/// `max` or `min`: `max` keeps the accumulator only when strictly
/// greater, `min` takes the later value only when strictly less.
pub open spec fn spec_cmp_keep(greatest: bool, acc: SpecExpr, v: SpecExpr) -> Result<SpecExpr, Error> {
    if greatest {
        match spec_cmp(acc, v) {
            Err(er) => Err(er),
            Ok(ExprOrder::Greater) => Ok(acc),
            Ok(_) => Ok(v),
        }
    } else {
        match spec_cmp(v, acc) {
            Err(er) => Err(er),
            Ok(ExprOrder::Less) => Ok(v),
            Ok(_) => Ok(acc),
        }
    }
}

/// A `while` loop: the test is evaluated and must be a boolean; while it
/// holds, the body elements are evaluated (positions `len - 1` down to
/// `0`, original call order) and the loop repeats on one fuel less. The
/// loop's value is nil.
pub open spec fn spec_while_loop(env: SpecEnv, test: SpecExpr, body: Seq<SpecExpr>, fuel: nat) -> Outcome
    decreases fuel, 2int, 0int,
{
    if fuel == 0 {
        (env, Err(Error::StackError))
    } else {
        let (e1, rt) = spec_eval(env, test, fuel);
        match rt {
            Err(er) => (e1, Err(er)),
            Ok(tv) => match spec_to_bool(tv) {
                Err(er) => (e1, Err(er)),
                Ok(false) => (e1, Ok(SpecExpr::Nil)),
                Ok(true) => {
                    let (e2, rb) = spec_eval_rev(e1, body, body.len() - 1, SpecExpr::Nil, fuel);
                    match rb {
                        Err(er) => (e2, Err(er)),
                        Ok(_) => spec_while_loop(e2, test, body, (fuel - 1) as nat),
                    }
                },
            },
        }
    }
}

/// The length every binding vector of a `doseq` must share: pairs are
/// checked left to right, a pair that is not a symbol and a vector is
/// `TypeMismatch`, and unequal lengths are `UnbalancedBindings`.
pub open spec fn spec_doseq_count(bindings: Seq<SpecExpr>, i: int, acc: Option<int>) -> Result<int, Error>
    decreases bindings.len() - i,
{
    if i < 0 || i + 1 >= bindings.len() {
        Ok(
            match acc {
                None => 0,
                Some(n) => n,
            },
        )
    } else {
        match (bindings[i], bindings[i + 1]) {
            (SpecExpr::Symbol(_), SpecExpr::Vector(vals)) => match acc {
                None => spec_doseq_count(bindings, i + 2, Some(vals.len() as int)),
                Some(n) => if n == vals.len() {
                    spec_doseq_count(bindings, i + 2, Some(n))
                } else {
                    Err(Error::UnbalancedBindings)
                },
            },
            _ => Err(Error::TypeMismatch),
        }
    }
}

/// One `doseq` round: each binding pair, left to right, evaluates element
/// `t` of its vector and pushes it under its symbol.
pub open spec fn spec_doseq_pairs(env: SpecEnv, bindings: Seq<SpecExpr>, i: int, t: int, fuel: nat) -> BindOutcome
    decreases fuel, 1int, bindings.len() - i,
{
    if i < 0 || i + 1 >= bindings.len() {
        (env, Ok(()))
    } else {
        match (bindings[i], bindings[i + 1]) {
            (SpecExpr::Symbol(var), SpecExpr::Vector(vals)) => {
                let (e1, rv) = spec_eval(env, vals[t], fuel);
                match rv {
                    Err(er) => (e1, Err(er)),
                    Ok(val) => spec_doseq_pairs(e1.push_stack(var, val), bindings, i + 2, t, fuel),
                }
            },
            _ => (env, Err(Error::TypeMismatch)),
        }
    }
}

/// The `doseq` rounds `t` up to `count`: each binds every pair for that
/// round, then evaluates the body elements if any were supplied (the
/// supplied aggregate must open as items). The loop's value is nil.
pub open spec fn spec_doseq_rounds(env: SpecEnv, bindings: Seq<SpecExpr>, exprs: Option<SpecExpr>, t: int, count: int, fuel: nat) -> Outcome
    decreases fuel, 2int, count - t,
{
    if t < 0 || t >= count {
        (env, Ok(SpecExpr::Nil))
    } else {
        let (e1, rp) = spec_doseq_pairs(env, bindings, 0, t, fuel);
        match rp {
            Err(er) => (e1, Err(er)),
            Ok(()) => match exprs {
                None => spec_doseq_rounds(e1, bindings, exprs, t + 1, count, fuel),
                Some(ev) => match spec_to_items(ev) {
                    Err(er) => (e1, Err(er)),
                    Ok(body) => {
                        let (e2, rb) = spec_eval_rev(e1, body, body.len() - 1, SpecExpr::Nil, fuel);
                        match rb {
                            Err(er) => (e2, Err(er)),
                            Ok(_) => spec_doseq_rounds(e2, bindings, exprs, t + 1, count, fuel),
                        }
                    },
                },
            },
        }
    }
}

/// The `dotimes` rounds `i` up to `range`: the loop variable is pushed as
/// the round number and the body evaluated. The loop's value is nil.
pub open spec fn spec_dotimes_rounds(env: SpecEnv, var: Seq<char>, body: SpecExpr, i: int, range: i64, fuel: nat) -> Outcome
    decreases fuel, 1int, range - i,
{
    if i >= range {
        (env, Ok(SpecExpr::Nil))
    } else {
        let e1 = env.push_stack(var, SpecExpr::Number(i as i64));
        let (e2, rb) = spec_eval(e1, body, fuel);
        match rb {
            Err(er) => (e2, Err(er)),
            Ok(_) => spec_dotimes_rounds(e2, var, body, i + 1, range, fuel),
        }
    }
}

/// The elements at positions `j` down to `0` evaluated in turn (original
/// call order) and gathered into a vector in that order.
pub open spec fn spec_gather_rev(env: SpecEnv, items: Seq<SpecExpr>, j: int, acc: Seq<SpecExpr>, fuel: nat) -> (SpecEnv, Result<Seq<SpecExpr>, Error>)
    decreases fuel, 1int, j + 1,
{
    if j < 0 {
        (env, Ok(acc))
    } else {
        let (e1, r) = spec_eval(env, items[j], fuel);
        match r {
            Err(er) => (e1, Err(er)),
            Ok(v) => spec_gather_rev(e1, items, j - 1, acc.push(v), fuel),
        }
    }
}

} // verus!

verus! {

/// `def`: the name slot and value slot are drained, the value expression
/// is evaluated, and the result is bound in the global frame; a non-symbol
/// name is `ExpectedSymbol`. The form's value is nil.
pub open spec fn spec_run_def(env: SpecEnv, fuel: nat) -> Outcome
    decreases fuel, 3int, 0int,
{
    let (e1, ra) = env.pop_stack_if_named("a"@);
    match ra {
        Err(er) => (e1, Err(er)),
        Ok(a) => {
            let (e2, rb) = e1.pop_stack_if_named("b"@);
            match rb {
                Err(er) => (e2, Err(er)),
                Ok(b) => {
                    let (e3, rd) = spec_eval(e2, b, fuel);
                    match rd {
                        Err(er) => (e3, Err(er)),
                        Ok(data) => match a {
                            SpecExpr::Symbol(name) => (
                                e3.define_var(name, data),
                                Ok(SpecExpr::Nil),
                            ),
                            _ => (e3, Err(Error::ExpectedSymbol)),
                        },
                    }
                },
            }
        },
    }
}

/// `let`: the binding aggregate is drained and opened, the optional body
/// aggregate drained, an odd binding list is `UnbalancedBindings`, the
/// pairs bind left to right into the current frame, and the body elements
/// evaluate in call order, the last one's value returned (nil without a
/// body).
pub open spec fn spec_run_let(env: SpecEnv, fuel: nat) -> Outcome
    decreases fuel, 3int, 0int,
{
    let (e1, rb) = env.pop_stack_if_named("bindings"@);
    match rb {
        Err(_) => (e1, Err(Error::UnexpectedArgs)),
        Ok(bv) => match spec_to_items(bv) {
            Err(er) => (e1, Err(er)),
            Ok(bindings) => {
                let (e2, rexp) = e1.pop_stack_if_named("exprs"@);
                let exprs_opt = match rexp {
                    Ok(v) => Some(v),
                    Err(_) => None,
                };
                if bindings.len() % 2 != 0 {
                    (e2, Err(Error::UnbalancedBindings))
                } else {
                    let (e3, rp) = spec_let_pairs(e2, bindings, 0, fuel);
                    match rp {
                        Err(er) => (e3, Err(er)),
                        Ok(()) => match exprs_opt {
                            None => (e3, Ok(SpecExpr::Nil)),
                            Some(ev) => match spec_to_items(ev) {
                                Err(er) => (e3, Err(er)),
                                Ok(body) => spec_eval_rev(
                                    e3,
                                    body,
                                    body.len() - 1,
                                    SpecExpr::Nil,
                                    fuel,
                                ),
                            },
                        },
                    }
                }
            },
        },
    }
}

/// `if`: the test is evaluated; only nil and false choose the third slot,
/// every other value the second, and the branch not chosen is never
/// evaluated.
pub open spec fn spec_run_if(env: SpecEnv, fuel: nat) -> Outcome
    decreases fuel, 3int, 0int,
{
    let (e1, ra) = env.pop_stack_if_named("a"@);
    match ra {
        Err(er) => (e1, Err(er)),
        Ok(a) => {
            let (e2, rb) = e1.pop_stack_if_named("b"@);
            match rb {
                Err(er) => (e2, Err(er)),
                Ok(b) => {
                    let (e3, rc) = e2.pop_stack_if_named("c"@);
                    match rc {
                        Err(er) => (e3, Err(er)),
                        Ok(c) => {
                            let (e4, rt) = spec_eval(e3, a, fuel);
                            match rt {
                                Err(er) => (e4, Err(er)),
                                Ok(SpecExpr::Nil) => spec_eval(e4, c, fuel),
                                Ok(SpecExpr::Bool(false)) => spec_eval(e4, c, fuel),
                                Ok(_) => spec_eval(e4, b, fuel),
                            }
                        },
                    }
                },
            }
        },
    }
}

/// `do`: every form is evaluated in call order; the last one's value is
/// returned, nil without forms.
pub open spec fn spec_run_do(env: SpecEnv, fuel: nat) -> Outcome
    decreases fuel, 3int, 0int,
{
    let (e1, ra) = spec_pop_args(env);
    match ra {
        Err(er) => (e1, Err(er)),
        Ok(None) => (e1, Ok(SpecExpr::Nil)),
        Ok(Some(items)) => spec_eval_rev(e1, items, items.len() - 1, SpecExpr::Nil, fuel),
    }
}

/// `while`: without a body the value is nil and the test is never
/// evaluated; with one, `spec_while_loop` runs.
pub open spec fn spec_run_while(env: SpecEnv, fuel: nat) -> Outcome
    decreases fuel, 3int, 0int,
{
    let (e1, r) = spec_pop_x_ys(env);
    match r {
        Err(er) => (e1, Err(er)),
        Ok((_x, None)) => (e1, Ok(SpecExpr::Nil)),
        Ok((x, Some(ys))) => spec_while_loop(e1, x, ys, fuel),
    }
}

/// `doseq`: the binding aggregate is drained and opened, the optional
/// body drained, an odd list is `UnbalancedBindings`, the shared vector
/// length is checked, and the rounds run. The form's value is nil.
pub open spec fn spec_run_doseq(env: SpecEnv, fuel: nat) -> Outcome
    decreases fuel, 3int, 0int,
{
    let (e1, rb) = env.pop_stack_if_named("bindings"@);
    match rb {
        Err(_) => (e1, Err(Error::UnexpectedArgs)),
        Ok(bv) => match spec_to_items(bv) {
            Err(er) => (e1, Err(er)),
            Ok(bindings) => {
                let (e2, rexp) = e1.pop_stack_if_named("exprs"@);
                let exprs_opt = match rexp {
                    Ok(v) => Some(v),
                    Err(_) => None,
                };
                if bindings.len() % 2 != 0 {
                    (e2, Err(Error::UnbalancedBindings))
                } else {
                    match spec_doseq_count(bindings, 0, None) {
                        Err(er) => (e2, Err(er)),
                        Ok(count) => spec_doseq_rounds(e2, bindings, exprs_opt, 0, count, fuel),
                    }
                }
            },
        },
    }
}

/// `dotimes`: the binding slot evaluates to a two-element aggregate, a
/// symbol and a count expression; each round pushes the round number
/// under the symbol and evaluates the body slot. The form's value is nil.
pub open spec fn spec_run_dotimes(env: SpecEnv, fuel: nat) -> Outcome
    decreases fuel, 3int, 0int,
{
    let (e1, ra) = env.pop_stack_if_named("a"@);
    match ra {
        Err(er) => (e1, Err(er)),
        Ok(a) => {
            let (e2, rb) = e1.pop_stack_if_named("b"@);
            match rb {
                Err(er) => (e2, Err(er)),
                Ok(b) => {
                    let (e3, rv) = spec_eval(e2, a, fuel);
                    match rv {
                        Err(er) => (e3, Err(er)),
                        Ok(bindsv) => match spec_to_items(bindsv) {
                            Err(er) => (e3, Err(er)),
                            Ok(binds) => if binds.len() != 2 {
                                (e3, Err(Error::UnbalancedBindings))
                            } else {
                                match binds[0] {
                                    SpecExpr::Symbol(var) => {
                                        let (e4, rr) = spec_eval(e3, binds[1], fuel);
                                        match rr {
                                            Err(er) => (e4, Err(er)),
                                            Ok(rv2) => match spec_to_i64(rv2) {
                                                Err(er) => (e4, Err(er)),
                                                Ok(range) => spec_dotimes_rounds(
                                                    e4,
                                                    var,
                                                    b,
                                                    0,
                                                    range,
                                                    fuel,
                                                ),
                                            },
                                        }
                                    },
                                    _ => (e3, Err(Error::ExpectedSymbol)),
                                }
                            },
                        },
                    }
                },
            }
        },
    }
}

/// `vector`: every element is evaluated in call order and the values are
/// gathered into a vector in that order.
pub open spec fn spec_run_vector(env: SpecEnv, fuel: nat) -> Outcome
    decreases fuel, 3int, 0int,
{
    let (e1, ra) = spec_pop_args(env);
    match ra {
        Err(er) => (e1, Err(er)),
        Ok(None) => (e1, Ok(SpecExpr::Vector(Seq::empty()))),
        Ok(Some(items)) => {
            let (e2, rg) = spec_gather_rev(e1, items, items.len() - 1, Seq::empty(), fuel);
            match rg {
                Err(er) => (e2, Err(er)),
                Ok(vals) => (e2, Ok(SpecExpr::Vector(vals))),
            }
        },
    }
}

/// The tail of `nth` once the index value is at hand: an in-range index
/// selects the element; anything out of range evaluates the default
/// expression; a non-number index is `TypeMismatch`.
pub open spec fn spec_nth_index(env: SpecEnv, vec: Seq<SpecExpr>, iv: SpecExpr, dnf: SpecExpr, fuel: nat) -> Outcome
    decreases fuel, 1int, 0int,
{
    match iv {
        SpecExpr::Number(idx) => if 0 <= idx < vec.len() {
            (env, Ok(vec[idx as int]))
        } else {
            spec_eval(env, dnf, fuel)
        },
        _ => (env, Err(Error::TypeMismatch)),
    }
}

/// `nth`: the vector slot must open as items (`ExpectedVector`), the
/// argument aggregate must be present (`TooFewArgs` if absent) and hold
/// one element (the index) or two (the default, then the index, as they
/// sit in reverse call order); more is `TooManyArgs`. The index
/// expression is evaluated; the default only when the index misses.
pub open spec fn spec_run_nth(env: SpecEnv, fuel: nat) -> Outcome
    decreases fuel, 3int, 0int,
{
    let (e1, rv) = env.pop_stack_if_named("vec"@);
    match rv {
        Err(er) => (e1, Err(er)),
        Ok(vecv) => match spec_to_items(vecv) {
            Err(_) => (e1, Err(Error::ExpectedVector)),
            Ok(vec) => {
                let (e2, ra) = e1.pop_stack_if_named("args"@);
                match ra {
                    Err(_) => (e2, Err(Error::TooFewArgs)),
                    Ok(argsv) => match spec_to_items(argsv) {
                        Err(er) => (e2, Err(er)),
                        Ok(args) => if args.len() == 0 {
                            (e2, Err(Error::TooFewArgs))
                        } else if args.len() == 1 {
                            let (e3, ri) = spec_eval(e2, args[0], fuel);
                            match ri {
                                Err(er) => (e3, Err(er)),
                                Ok(iv) => spec_nth_index(e3, vec, iv, SpecExpr::Nil, fuel),
                            }
                        } else if args.len() == 2 {
                            let (e3, ri) = spec_eval(e2, args[1], fuel);
                            match ri {
                                Err(er) => (e3, Err(er)),
                                Ok(iv) => spec_nth_index(e3, vec, iv, args[0], fuel),
                            }
                        } else {
                            (e2, Err(Error::TooManyArgs))
                        },
                    },
                }
            },
        },
    }
}

/// `peek`: the last element of the vector slot, `Empty` when it has none,
/// `ExpectedVector` when the slot does not open as items.
pub open spec fn spec_run_peek(env: SpecEnv, fuel: nat) -> Outcome
    decreases fuel, 3int, 0int,
{
    let (e1, rv) = env.pop_stack_if_named("vec"@);
    match rv {
        Err(er) => (e1, Err(er)),
        Ok(vecv) => match spec_to_items(vecv) {
            Err(_) => (e1, Err(Error::ExpectedVector)),
            Ok(vec) => if vec.len() > 0 {
                (e1, Ok(vec.last()))
            } else {
                (e1, Err(Error::Empty))
            },
        },
    }
}

/// `pop`: the vector slot without its last element, `Empty` when it has
/// none, `ExpectedVector` when the slot does not open as items.
pub open spec fn spec_run_pop(env: SpecEnv, fuel: nat) -> Outcome
    decreases fuel, 3int, 0int,
{
    let (e1, rv) = env.pop_stack_if_named("vec"@);
    match rv {
        Err(er) => (e1, Err(er)),
        Ok(vecv) => match spec_to_items(vecv) {
            Err(_) => (e1, Err(Error::ExpectedVector)),
            Ok(vec) => if vec.len() > 0 {
                (e1, Ok(SpecExpr::Vector(vec.drop_last())))
            } else {
                (e1, Err(Error::Empty))
            },
        },
    }
}

/// `+`: zero arguments are `0`; otherwise checked addition over all
/// evaluated arguments.
pub open spec fn spec_run_add(env: SpecEnv, fuel: nat) -> Outcome
    decreases fuel, 3int, 0int,
{
    let (e1, ra) = spec_pop_args(env);
    match ra {
        Err(er) => (e1, Err(er)),
        Ok(None) => (e1, Ok(SpecExpr::Number(0))),
        Ok(Some(items)) => spec_fold_add(e1, items, 0, 0, fuel),
    }
}

/// `*`: zero arguments are `1`; otherwise checked multiplication over all
/// evaluated arguments.
pub open spec fn spec_run_mul(env: SpecEnv, fuel: nat) -> Outcome
    decreases fuel, 3int, 0int,
{
    let (e1, ra) = spec_pop_args(env);
    match ra {
        Err(er) => (e1, Err(er)),
        Ok(None) => (e1, Ok(SpecExpr::Number(1))),
        Ok(Some(items)) => spec_fold_mul(e1, items, 0, 1, fuel),
    }
}

/// `-`: one argument is checked negation (of a number only: any other
/// value is `ImpossibleConversion`); more arguments subtract from the
/// first, folding as stored.
pub open spec fn spec_run_sub(env: SpecEnv, fuel: nat) -> Outcome
    decreases fuel, 3int, 0int,
{
    let (e1, r) = spec_pop_x_ys(env);
    match r {
        Err(er) => (e1, Err(er)),
        Ok((x, None)) => {
            let (e2, rv) = spec_eval(e1, x, fuel);
            match rv {
                Err(er) => (e2, Err(er)),
                Ok(v) => match spec_to_i64(v) {
                    Err(er) => (e2, Err(er)),
                    Ok(n) => if n == i64::MIN {
                        (e2, Err(Error::MathError))
                    } else {
                        (e2, Ok(SpecExpr::Number((-n) as i64)))
                    },
                },
            }
        },
        Ok((x, Some(ys))) => {
            let (e2, rv) = spec_eval(e1, x, fuel);
            match rv {
                Err(er) => (e2, Err(er)),
                Ok(v) => match spec_to_i64(v) {
                    Err(er) => (e2, Err(er)),
                    Ok(n) => spec_fold_sub(e2, ys, 0, n, fuel),
                },
            }
        },
    }
}

/// `/`: one argument divides one by it; more divide the first by each of
/// the rest as stored. Division by zero and overflow are `MathError`.
pub open spec fn spec_run_div(env: SpecEnv, fuel: nat) -> Outcome
    decreases fuel, 3int, 0int,
{
    let (e1, r) = spec_pop_x_ys(env);
    match r {
        Err(er) => (e1, Err(er)),
        Ok((x, None)) => {
            let (e2, rv) = spec_eval(e1, x, fuel);
            match rv {
                Err(er) => (e2, Err(er)),
                Ok(v) => match spec_to_i64(v) {
                    Err(er) => (e2, Err(er)),
                    Ok(n) => match (1i64).checked_div(n) {
                        Some(q) => (e2, Ok(SpecExpr::Number(q))),
                        None => (e2, Err(Error::MathError)),
                    },
                },
            }
        },
        Ok((x, Some(ys))) => {
            let (e2, rv) = spec_eval(e1, x, fuel);
            match rv {
                Err(er) => (e2, Err(er)),
                Ok(v) => match spec_to_i64(v) {
                    Err(er) => (e2, Err(er)),
                    Ok(n) => spec_fold_div(e2, ys, 0, n, fuel),
                },
            }
        },
    }
}

/// `rem`: the checked remainder of the two evaluated slots; a zero
/// divisor, and overflow, are `MathError`.
pub open spec fn spec_run_rem(env: SpecEnv, fuel: nat) -> Outcome
    decreases fuel, 3int, 0int,
{
    let (e1, ra) = env.pop_stack_if_named("a"@);
    match ra {
        Err(er) => (e1, Err(er)),
        Ok(a) => {
            let (e2, rb) = e1.pop_stack_if_named("b"@);
            match rb {
                Err(er) => (e2, Err(er)),
                Ok(b) => {
                    let (e3, rn) = spec_eval(e2, a, fuel);
                    match rn {
                        Err(er) => (e3, Err(er)),
                        Ok(nv) => match spec_to_i64(nv) {
                            Err(er) => (e3, Err(er)),
                            Ok(num) => {
                                let (e4, rd) = spec_eval(e3, b, fuel);
                                match rd {
                                    Err(er) => (e4, Err(er)),
                                    Ok(dv) => match spec_to_i64(dv) {
                                        Err(er) => (e4, Err(er)),
                                        Ok(div) => match num.checked_rem(div) {
                                            Some(m) => (e4, Ok(SpecExpr::Number(m))),
                                            None => (e4, Err(Error::MathError)),
                                        },
                                    },
                                }
                            },
                        },
                    }
                },
            }
        },
    }
}

/// `inc`: the evaluated slot plus one, checked.
pub open spec fn spec_run_inc(env: SpecEnv, fuel: nat) -> Outcome
    decreases fuel, 3int, 0int,
{
    let (e1, rx) = env.pop_stack_if_named("x"@);
    match rx {
        Err(er) => (e1, Err(er)),
        Ok(x) => {
            let (e2, rv) = spec_eval(e1, x, fuel);
            match rv {
                Err(er) => (e2, Err(er)),
                Ok(v) => match spec_to_i64(v) {
                    Err(er) => (e2, Err(er)),
                    Ok(n) => match n.checked_add(1) {
                        Some(m) => (e2, Ok(SpecExpr::Number(m))),
                        None => (e2, Err(Error::MathError)),
                    },
                },
            }
        },
    }
}

/// `dec`: the evaluated slot minus one, checked.
pub open spec fn spec_run_dec(env: SpecEnv, fuel: nat) -> Outcome
    decreases fuel, 3int, 0int,
{
    let (e1, rx) = env.pop_stack_if_named("x"@);
    match rx {
        Err(er) => (e1, Err(er)),
        Ok(x) => {
            let (e2, rv) = spec_eval(e1, x, fuel);
            match rv {
                Err(er) => (e2, Err(er)),
                Ok(v) => match spec_to_i64(v) {
                    Err(er) => (e2, Err(er)),
                    Ok(n) => match n.checked_sub(1) {
                        Some(m) => (e2, Ok(SpecExpr::Number(m))),
                        None => (e2, Err(Error::MathError)),
                    },
                },
            }
        },
    }
}

/// `max` and `min`: a single argument evaluates to itself; otherwise all
/// arguments are evaluated and compared totally, an incomparable pair
/// being `TypeMismatch`.
pub open spec fn spec_run_extreme(env: SpecEnv, greatest: bool, fuel: nat) -> Outcome
    decreases fuel, 3int, 0int,
{
    let (e1, r) = spec_pop_x_ys(env);
    match r {
        Err(er) => (e1, Err(er)),
        Ok((x, None)) => spec_eval(e1, x, fuel),
        Ok((x, Some(ys))) => {
            let (e2, rx) = spec_eval(e1, x, fuel);
            match rx {
                Err(er) => (e2, Err(er)),
                Ok(xv) => if ys.len() == 0 {
                    (e2, Ok(xv))
                } else {
                    let (e3, r0) = spec_eval(e2, ys[0], fuel);
                    match r0 {
                        Err(er) => (e3, Err(er)),
                        Ok(first) => spec_fold_extreme(e3, greatest, ys, 1, first, xv, fuel),
                    }
                },
            }
        },
    }
}

/// `==`: a single argument is true; otherwise every argument is
/// evaluated and each is tested structurally equal to its predecessor.
pub open spec fn spec_run_eq(env: SpecEnv, fuel: nat) -> Outcome
    decreases fuel, 3int, 0int,
{
    let (e1, r) = spec_pop_x_ys(env);
    match r {
        Err(er) => (e1, Err(er)),
        Ok((_x, None)) => (e1, Ok(SpecExpr::Bool(true))),
        Ok((x, Some(ys))) => {
            let (e2, rx) = spec_eval(e1, x, fuel);
            match rx {
                Err(er) => (e2, Err(er)),
                Ok(xv) => spec_fold_eq(e2, ys, 0, xv, true, fuel),
            }
        },
    }
}

/// The chained comparisons `>`, `>=`, `<`, `<=`: a single argument is
/// true; otherwise every argument is evaluated in call order and each
/// neighbouring pair is tested under the partial order.
pub open spec fn spec_run_rel(env: SpecEnv, tag: Builtin, fuel: nat) -> Outcome
    decreases fuel, 3int, 0int,
{
    let (e1, r) = spec_pop_x_ys(env);
    match r {
        Err(er) => (e1, Err(er)),
        Ok((_x, None)) => (e1, Ok(SpecExpr::Bool(true))),
        Ok((x, Some(ys))) => {
            let (e2, rx) = spec_eval(e1, x, fuel);
            match rx {
                Err(er) => (e2, Err(er)),
                Ok(xv) => spec_fold_rel(e2, tag, ys, ys.len() - 1, xv, true, fuel),
            }
        },
    }
}

/// `and` and `or`: zero arguments are their identities, true and false;
/// otherwise every argument is evaluated, must be a boolean, and is
/// folded without any early exit.
pub open spec fn spec_run_bool(env: SpecEnv, conj: bool, fuel: nat) -> Outcome
    decreases fuel, 3int, 0int,
{
    let (e1, ra) = spec_pop_args(env);
    match ra {
        Err(er) => (e1, Err(er)),
        Ok(None) => (e1, Ok(SpecExpr::Bool(conj))),
        Ok(Some(items)) => spec_fold_bool(e1, conj, items, 0, conj, fuel),
    }
}

/// `not`: the evaluated slot must be a boolean; its negation is returned.
pub open spec fn spec_run_not(env: SpecEnv, fuel: nat) -> Outcome
    decreases fuel, 3int, 0int,
{
    let (e1, rx) = env.pop_stack_if_named("x"@);
    match rx {
        Err(er) => (e1, Err(er)),
        Ok(x) => {
            let (e2, rv) = spec_eval(e1, x, fuel);
            match rv {
                Err(er) => (e2, Err(er)),
                Ok(v) => match spec_to_bool(v) {
                    Err(er) => (e2, Err(er)),
                    Ok(b) => (e2, Ok(SpecExpr::Bool(!b))),
                },
            }
        },
    }
}

/// What a builtin body computes, by tag, in the frame its arguments were
/// bound into.
pub open spec fn spec_apply(tag: Builtin, env: SpecEnv, fuel: nat) -> Outcome
    decreases fuel, 4int, 0int,
{
    match tag {
        Builtin::Def => spec_run_def(env, fuel),
        Builtin::Let => spec_run_let(env, fuel),
        Builtin::If => spec_run_if(env, fuel),
        Builtin::Do => spec_run_do(env, fuel),
        Builtin::While => spec_run_while(env, fuel),
        Builtin::DoSeq => spec_run_doseq(env, fuel),
        Builtin::DoTimes => spec_run_dotimes(env, fuel),
        Builtin::NewVector => spec_run_vector(env, fuel),
        Builtin::Nth => spec_run_nth(env, fuel),
        Builtin::Peek => spec_run_peek(env, fuel),
        Builtin::Pop => spec_run_pop(env, fuel),
        Builtin::Add => spec_run_add(env, fuel),
        Builtin::Sub => spec_run_sub(env, fuel),
        Builtin::Mul => spec_run_mul(env, fuel),
        Builtin::Div => spec_run_div(env, fuel),
        Builtin::Rem => spec_run_rem(env, fuel),
        Builtin::Inc => spec_run_inc(env, fuel),
        Builtin::Dec => spec_run_dec(env, fuel),
        Builtin::Max => spec_run_extreme(env, true, fuel),
        Builtin::Min => spec_run_extreme(env, false, fuel),
        Builtin::CmpEq => spec_run_eq(env, fuel),
        Builtin::CmpGt => spec_run_rel(env, Builtin::CmpGt, fuel),
        Builtin::CmpGe => spec_run_rel(env, Builtin::CmpGe, fuel),
        Builtin::CmpLt => spec_run_rel(env, Builtin::CmpLt, fuel),
        Builtin::CmpLe => spec_run_rel(env, Builtin::CmpLe, fuel),
        Builtin::BoolAnd => spec_run_bool(env, true, fuel),
        Builtin::BoolOr => spec_run_bool(env, false, fuel),
        Builtin::BoolNot => spec_run_not(env, fuel),
    }
}

} // verus!

verus! {

/// The default builtin set loaded in order; registration stops at the
/// first `DuplicateSymbol`, leaving the earlier entries registered.
pub open spec fn spec_load_defaults(env: SpecEnv) -> (SpecEnv, Result<(), Error>) {
    let (env, r) = env.load_builtin("def"@, "a b"@, Builtin::Def);
    if r is Err {
        (env, r)
    } else {
        let (env, r) = env.load_builtin("let"@, "bindings & exprs"@, Builtin::Let);
        if r is Err {
            (env, r)
        } else {
            let (env, r) = env.load_builtin("if"@, "a b c"@, Builtin::If);
            if r is Err {
                (env, r)
            } else {
                let (env, r) = env.load_builtin("do"@, "&"@, Builtin::Do);
                if r is Err {
                    (env, r)
                } else {
                    let (env, r) = env.load_builtin("while"@, "x & ys"@, Builtin::While);
                    if r is Err {
                        (env, r)
                    } else {
                        let (env, r) = env.load_builtin("doseq"@, "bindings & exprs"@, Builtin::DoSeq);
                        if r is Err {
                            (env, r)
                        } else {
                            let (env, r) = env.load_builtin("dotimes"@, "a b"@, Builtin::DoTimes);
                            if r is Err {
                                (env, r)
                            } else {
                                let (env, r) = env.load_builtin("vector"@, "&"@, Builtin::NewVector);
                                if r is Err {
                                    (env, r)
                                } else {
                                    let (env, r) = env.load_builtin("nth"@, "vec & args"@, Builtin::Nth);
                                    if r is Err {
                                        (env, r)
                                    } else {
                                        let (env, r) = env.load_builtin("peek"@, "vec"@, Builtin::Peek);
                                        if r is Err {
                                            (env, r)
                                        } else {
                                            let (env, r) = env.load_builtin("pop"@, "vec"@, Builtin::Pop);
                                            if r is Err {
                                                (env, r)
                                            } else {
                                                let (env, r) = env.load_builtin("+"@, "&"@, Builtin::Add);
                                                if r is Err {
                                                    (env, r)
                                                } else {
                                                    let (env, r) = env.load_builtin("-"@, "x & ys"@, Builtin::Sub);
                                                    if r is Err {
                                                        (env, r)
                                                    } else {
                                                        let (env, r) = env.load_builtin("*"@, "&"@, Builtin::Mul);
                                                        if r is Err {
                                                            (env, r)
                                                        } else {
                                                            let (env, r) = env.load_builtin("/"@, "x & ys"@, Builtin::Div);
                                                            if r is Err {
                                                                (env, r)
                                                            } else {
                                                                let (env, r) = env.load_builtin("rem"@, "a b"@, Builtin::Rem);
                                                                if r is Err {
                                                                    (env, r)
                                                                } else {
                                                                    let (env, r) = env.load_builtin("inc"@, "x"@, Builtin::Inc);
                                                                    if r is Err {
                                                                        (env, r)
                                                                    } else {
                                                                        let (env, r) = env.load_builtin("dec"@, "x"@, Builtin::Dec);
                                                                        if r is Err {
                                                                            (env, r)
                                                                        } else {
                                                                            let (env, r) = env.load_builtin("max"@, "x & ys"@, Builtin::Max);
                                                                            if r is Err {
                                                                                (env, r)
                                                                            } else {
                                                                                let (env, r) = env.load_builtin("min"@, "x & ys"@, Builtin::Min);
                                                                                if r is Err {
                                                                                    (env, r)
                                                                                } else {
                                                                                    let (env, r) = env.load_builtin("=="@, "x & ys"@, Builtin::CmpEq);
                                                                                    if r is Err {
                                                                                        (env, r)
                                                                                    } else {
                                                                                        let (env, r) = env.load_builtin(">"@, "x & ys"@, Builtin::CmpGt);
                                                                                        if r is Err {
                                                                                            (env, r)
                                                                                        } else {
                                                                                            let (env, r) = env.load_builtin(">="@, "x & ys"@, Builtin::CmpGe);
                                                                                            if r is Err {
                                                                                                (env, r)
                                                                                            } else {
                                                                                                let (env, r) = env.load_builtin("<"@, "x & ys"@, Builtin::CmpLt);
                                                                                                if r is Err {
                                                                                                    (env, r)
                                                                                                } else {
                                                                                                    let (env, r) = env.load_builtin("<="@, "x & ys"@, Builtin::CmpLe);
                                                                                                    if r is Err {
                                                                                                        (env, r)
                                                                                                    } else {
                                                                                                        let (env, r) = env.load_builtin("and"@, "&"@, Builtin::BoolAnd);
                                                                                                        if r is Err {
                                                                                                            (env, r)
                                                                                                        } else {
                                                                                                            let (env, r) = env.load_builtin("or"@, "&"@, Builtin::BoolOr);
                                                                                                            if r is Err {
                                                                                                                (env, r)
                                                                                                            } else {
                                                                                                                let (env, r) = env.load_builtin("not"@, "x"@, Builtin::BoolNot);
                                                                                                                if r is Err {
                                                                                                                    (env, r)
                                                                                                                } else {
                                                                                                                    (env, Ok(()))
                                                                                                                }
                                                                                                            }
                                                                                                        }
                                                                                                    }
                                                                                                }
                                                                                            }
                                                                                        }
                                                                                    }
                                                                                }
                                                                            }
                                                                        }
                                                                    }
                                                                }
                                                            }
                                                        }
                                                    }
                                                }
                                            }
                                        }
                                    }
                                }
                            }
                        }
                    }
                }
            }
        }
    }
}

} // verus!
verus! {

/// Where the `doseq` length check succeeds, every pair is a symbol and a
/// vector of exactly the shared length.
pub proof fn lemma_doseq_count(bindings: Seq<SpecExpr>, i: int, acc: Option<int>, count: int)
    requires
        spec_doseq_count(bindings, i, acc) == Ok::<int, Error>(count),
        0 <= i,
    ensures
        forall|j: int|
            i <= j && j + 1 < bindings.len() && (j - i) % 2 == 0 ==> (#[trigger] bindings[j])
                is Symbol && (bindings[j + 1] matches SpecExpr::Vector(vals) && vals.len()
                == count),
        acc matches Some(n) ==> n == count,
    decreases bindings.len() - i,
{
    if i + 1 >= bindings.len() {
    } else {
        match (bindings[i], bindings[i + 1]) {
            (SpecExpr::Symbol(_), SpecExpr::Vector(vals)) => {
                match acc {
                    None => {
                        lemma_doseq_count(bindings, i + 2, Some(vals.len() as int), count);
                    },
                    Some(n) => {
                        lemma_doseq_count(bindings, i + 2, Some(n), count);
                    },
                }
            },
            _ => {},
        }
    }
}

} // verus!
