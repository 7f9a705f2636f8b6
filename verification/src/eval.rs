use vstd::prelude::*;
use vstd::string::StrSliceExecFns;

use crate::environment::Environment;
use crate::error::Error;
use crate::expression::Builtin;
use crate::expression::ExprOrder;
use crate::expression::Expression;
use crate::expression::FnBody;
use crate::expression::SpecExpr;
use crate::expression::lemma_function_view;
use crate::expression::seq_view;
use crate::semantics::char_index_of;
use crate::semantics::is_ws;
use crate::semantics::next_non_ws;
use crate::semantics::next_ws;
use crate::semantics::spec_apply;
use crate::semantics::spec_bind;
use crate::semantics::spec_bind_named;
use crate::semantics::spec_cmp_keep;
use crate::semantics::spec_doseq_count;
use crate::semantics::spec_doseq_pairs;
use crate::semantics::spec_doseq_rounds;
use crate::semantics::spec_dotimes_rounds;
use crate::semantics::spec_eval;
use crate::semantics::spec_eval_rev;
use crate::semantics::spec_fold_add;
use crate::semantics::spec_fold_bool;
use crate::semantics::spec_fold_div;
use crate::semantics::spec_fold_eq;
use crate::semantics::spec_fold_extreme;
use crate::semantics::spec_fold_mul;
use crate::semantics::spec_fold_rel;
use crate::semantics::spec_fold_sub;
use crate::semantics::spec_gather_rev;
use crate::semantics::spec_let_pairs;
use crate::parser::spec_parse;
use crate::semantics::lemma_doseq_count;
use crate::semantics::spec_load_defaults;
use crate::semantics::spec_nth_index;
use crate::semantics::spec_pop_args;
use crate::semantics::spec_pop_x_ys;
use crate::semantics::spec_rel_holds;
use crate::semantics::spec_run_add;
use crate::semantics::spec_run_bool;
use crate::semantics::spec_run_dec;
use crate::semantics::spec_run_def;
use crate::semantics::spec_run_div;
use crate::semantics::spec_run_do;
use crate::semantics::spec_run_doseq;
use crate::semantics::spec_run_dotimes;
use crate::semantics::spec_run_eq;
use crate::semantics::spec_run_extreme;
use crate::semantics::spec_run_if;
use crate::semantics::spec_run_inc;
use crate::semantics::spec_run_let;
use crate::semantics::spec_run_mul;
use crate::semantics::spec_run_not;
use crate::semantics::spec_run_nth;
use crate::semantics::spec_run_peek;
use crate::semantics::spec_run_pop;
use crate::semantics::spec_run_rel;
use crate::semantics::spec_run_rem;
use crate::semantics::spec_run_sub;
use crate::semantics::spec_run_vector;
use crate::semantics::spec_run_while;
use crate::semantics::spec_split_params;
use crate::semantics::spec_while_loop;
use crate::semantics::split_words;
use crate::semantics::split_words_at;

verus! {

/// The depth and iteration bound of one top-level evaluation. A script
/// that nests calls deeper, or loops longer, than this reports
/// `StackError`; no realistic script reaches it before the host's own
/// call stack would.
pub const EVAL_FUEL: u64 = 1099511627776;

/// The model of an evaluation result.
pub open spec fn res_view(r: Result<Expression, Error>) -> Result<SpecExpr, Error> {
    match r {
        Ok(e) => Ok(e@),
        Err(er) => Err(er),
    }
}

/// The models of a vector of strings.
pub open spec fn strings_view(s: Seq<String>) -> Seq<Seq<char>> {
    Seq::new(
        s.len(),
        |i: int|
            if 0 <= i < s.len() {
                s[i]@
            } else {
                Seq::empty()
            },
    )
}

/// The model of an optional expression.
pub open spec fn opt_view(o: Option<Expression>) -> Option<SpecExpr> {
    match o {
        Some(e) => Some(e@),
        None => None,
    }
}

/// Whether `c` delimits words: space, tab, newline or carriage return.
fn ws_char(c: char) -> (r: bool)
    ensures
        r == is_ws(c),
{
    c == ' ' || c == '\t' || c == '\n' || c == '\r'
}

/// The first position of `c` in `s`, if any.
#[verifier::loop_isolation(false)]
fn find_char(s: &str, c: char) -> (r: Option<usize>)
    ensures
        match r {
            Some(i) => i < s@.len() && char_index_of(s@, c, 0) == Some(i as int),
            None => char_index_of(s@, c, 0) is None,
        },
{
    let n = s.unicode_len();
    let mut i: usize = 0;
    while i < n
        invariant
            i <= n,
            n == s@.len(),
            char_index_of(s@, c, 0) == char_index_of(s@, c, i as int),
        decreases n - i,
    {
        if s.get_char(i) == c {
            return Some(i);
        }
        i = i + 1;
    }
    None
}

/// The whitespace-separated words of `s`, in order.
#[verifier::loop_isolation(false)]
pub(crate) fn words_of(s: &str) -> (r: Vec<String>)
    ensures
        strings_view(r@) == split_words(s@),
{
    let n = s.unicode_len();
    let mut r: Vec<String> = Vec::new();
    let mut i: usize = 0;
    proof {
        assert(split_words(s@) =~~= strings_view(r@) + split_words_at(s@, 0));
    }
    loop
        invariant
            i <= n,
            n == s@.len(),
            split_words(s@) == strings_view(r@) + split_words_at(s@, i as int),
        decreases n - i,
    {
        let ghost i0 = i as int;
        while i < n && ws_char(s.get_char(i))
            invariant
                i0 <= i <= n,
                n == s@.len(),
                next_non_ws(s@, i0) == next_non_ws(s@, i as int),
            decreases n - i,
        {
            i = i + 1;
        }
        proof {
            assert(next_non_ws(s@, i as int) == i as int);
        }
        if i >= n {
            proof {
                assert(split_words_at(s@, i0) =~~= Seq::<Seq<char>>::empty());
                assert(split_words(s@) =~~= strings_view(r@));
            }
            return r;
        }
        let start = i;
        while i < n && !ws_char(s.get_char(i))
            invariant
                start <= i <= n,
                n == s@.len(),
                next_ws(s@, start as int) == next_ws(s@, i as int),
            decreases n - i,
        {
            i = i + 1;
        }
        proof {
            assert(next_ws(s@, i as int) == i as int);
        }
        let w = s.substring_char(start, i);
        let ghost r0 = strings_view(r@);
        r.push(w.to_owned());
        proof {
            assert(strings_view(r@) =~~= r0.push(s@.subrange(start as int, i as int)));
            assert(split_words_at(s@, i0) =~~= seq![s@.subrange(start as int, i as int)]
                + split_words_at(s@, i as int));
            assert(split_words(s@) =~~= strings_view(r@) + split_words_at(s@, i as int));
        }
    }
}

/// A parameter spec split at its first `&` into named words and, when the
/// `&` is present, positional words.
fn split_params(params: &str) -> (r: (Vec<String>, Option<Vec<String>>))
    ensures
        ({
            let (named, pos) = spec_split_params(params@);
            strings_view(r.0@) == named && (match (r.1, pos) {
                (None, None) => true,
                (Some(v), Some(sw)) => strings_view(v@) == sw,
                _ => false,
            })
        }),
{
    match find_char(params, '&') {
        Some(i) => {
            let n = params.unicode_len();
            let before = params.substring_char(0, i);
            let after = params.substring_char(i + 1, n);
            (words_of(before), Some(words_of(after)))
        },
        None => (words_of(params), None),
    }
}

impl Environment {
    /// Drains the named parameter slots right to left, each taking the
    /// last remaining call element.
    #[verifier::loop_isolation(false)]
    fn bind_named(&mut self, named: &Vec<String>, rest: Vec<Expression>) -> (r: Result<(), Error>)
        ensures
            ({
                let (e2, res) = spec_bind_named(old(self)@, strings_view(named@), seq_view(rest@));
                final(self)@ == e2 && r == res
            }),
    {
        let ghost env0 = self@;
        let ghost named0 = strings_view(named@);
        let ghost rest0 = seq_view(rest@);
        let mut rest = rest;
        let mut k = named.len();
        proof {
            assert(named0.subrange(0, k as int) =~~= named0);
        }
        loop
            invariant
                k <= named@.len(),
            spec_bind_named(env0, named0, rest0) == spec_bind_named(
                self@,
                strings_view(named@).subrange(0, k as int),
                seq_view(rest@),
            ),
            decreases k,
        {
            let ghost cur_named = strings_view(named@).subrange(0, k as int);
            let ghost cur_rest = seq_view(rest@);
            if k == 0 {
                proof {
                    assert(cur_named.len() == 0);
                }
                if rest.len() != 1 {
                    return Err(Error::TooFewArgs);
                }
                return Ok(());
            }
            match rest.pop() {
                None => {
                    proof {
                        assert(cur_rest.len() == 0);
                    }
                    return Err(Error::TooFewArgs);
                },
                Some(v) => {
                    let _ = self.push_stack(named[k - 1].as_str(), v);
                    k = k - 1;
                    proof {
                        assert(cur_named.last() == named@[k as int]@);
                        assert(cur_named.drop_last() =~~= strings_view(named@).subrange(
                            0,
                            k as int,
                        ));
                        assert(cur_rest.last() == v@);
                        assert(cur_rest.drop_last() =~~= seq_view(rest@));
                    }
                },
            }
        }
    }

    /// Runs the argument-binding algorithm in the already pushed frame:
    /// positional elements are collected off the tail into one vector in
    /// reverse call order, then the named slots bind right to left.
    #[verifier::loop_isolation(false)]
    fn bind_args(&mut self, params: &str, args: Vec<Expression>) -> (r: Result<(), Error>)
        ensures
            ({
                let (e2, res) = spec_bind(old(self)@, params@, seq_view(args@));
                final(self)@ == e2 && r == res
            }),
    {
        let ghost env0 = self@;
        let ghost argseq = args@;
        let ghost items = seq_view(args@);
        let (named, pos_opt) = split_params(params);
        let named_count = named.len();
        let mut rest = args;
        match pos_opt {
            Some(pos_words) => {
                if pos_words.len() > 1 {
                    return Err(Error::UnexpectedSymbol);
                }
                let mut pos_args: Vec<Expression> = Vec::new();
                proof {
                    assert(seq_view(pos_args@) =~~= items.subrange(
                        rest@.len() as int,
                        items.len() as int,
                    ).reverse());
                    assert(rest@ =~= argseq.subrange(0, rest@.len() as int));
                }
                while rest.len() > named_count && rest.len() - named_count > 1
                    invariant
                        named_count == named@.len(),
                        rest@.len() + pos_args@.len() == items.len(),
                        rest@ == argseq.subrange(0, rest@.len() as int),
                        seq_view(pos_args@) == items.subrange(
                            rest@.len() as int,
                            items.len() as int,
                        ).reverse(),
                        pos_args@.len() > 0 ==> rest@.len() >= named_count + 1,
                    decreases rest@.len(),
                {
                    let ghost m = rest@.len() as int;
                    let popped = rest.pop();
                    match popped {
                        Some(e) => {
                            proof {
                                assert(e@ == items[m - 1]);
                            }
                            let ghost p0 = seq_view(pos_args@);
                            pos_args.push(e);
                            proof {
                                let ghost ll = items.len() as int;
                                assert(rest@ =~= argseq.subrange(0, rest@.len() as int));
                                assert(seq_view(pos_args@) =~= p0.push(e@));
                                assert forall|ix: int|
                                    0 <= ix < items.subrange(m - 1, ll).reverse().len() implies
                                    #[trigger] items.subrange(m - 1, ll).reverse()[ix]
                                        == items.subrange(m, ll).reverse().push(
                                        items[m - 1],
                                    )[ix] by {
                                    assert(items.subrange(m - 1, ll)[ll - (m - 1) - 1 - ix]
                                        == items[ll - 1 - ix]);
                                    if ix < ll - m {
                                        assert(items.subrange(m, ll)[ll - m - 1 - ix] == items[ll
                                            - 1 - ix]);
                                    }
                                }
                                assert(items.subrange(m - 1, ll).reverse() =~= items.subrange(
                                    m,
                                    ll,
                                ).reverse().push(items[m - 1]));
                                assert(seq_view(pos_args@) =~~= items.subrange(
                                    m - 1,
                                    ll,
                                ).reverse());
                            }
                        },
                        None => {
                            proof {
                                assert(false);
                            }
                        },
                    }
                }
                proof {
                    assert(seq_view(rest@) =~~= items.subrange(0, rest@.len() as int));
                }
                if pos_args.len() > 0 {
                    if pos_words.len() == 1 {
                        let _ = self.push_stack(pos_words[0].as_str(), Expression::Vector(pos_args));
                    } else {
                        let _ = self.push_stack("&", Expression::Vector(pos_args));
                    }
                }
                self.bind_named(&named, rest)
            },
            None => {
                if rest.len() > named_count && rest.len() - named_count > 1 {
                    return Err(Error::TooManyArgs);
                }
                proof {
                    assert(seq_view(rest@) =~~= items);
                }
                self.bind_named(&named, rest)
            },
        }
    }
}

} // verus!

verus! {

impl Environment {
    /// The `&` prologue: when the newest frame holds anything, the
    /// aggregate pushed under `&` is drained and opened as items.
    fn take_args(&mut self) -> (r: Result<Option<Vec<Expression>>, Error>)
        ensures
            ({
                let (e2, res) = spec_pop_args(old(self)@);
                final(self)@ == e2 && match (r, res) {
                    (Ok(None), Ok(None)) => true,
                    (Ok(Some(v)), Ok(Some(s))) => seq_view(v@) == s,
                    (Err(a), Err(b)) => a == b,
                    _ => false,
                }
            }),
    {
        proof {
            self.lemma_stack_nonempty();
        }
        if self.stack_frame_len() > 0 {
            match self.pop_stack_if_named("&") {
                Err(e) => Err(e),
                Ok(v) => match v.into_items() {
                    Err(e) => Err(e),
                    Ok(items) => Ok(Some(items)),
                },
            }
        } else {
            Ok(None)
        }
    }

    /// The `x & ys` prologue: the mandatory slot is drained (its absence
    /// is `UnexpectedArgs`), then the optional aggregate.
    fn take_x_ys(&mut self) -> (r: Result<(Expression, Option<Vec<Expression>>), Error>)
        ensures
            ({
                let (e2, res) = spec_pop_x_ys(old(self)@);
                final(self)@ == e2 && match (r, res) {
                    (Ok((x, None)), Ok((sx, None))) => x@ == sx,
                    (Ok((x, Some(v))), Ok((sx, Some(s)))) => x@ == sx && seq_view(v@) == s,
                    (Err(a), Err(b)) => a == b,
                    _ => false,
                }
            }),
    {
        match self.pop_stack_if_named("x") {
            Err(_) => Err(Error::UnexpectedArgs),
            Ok(x) => match self.pop_stack_if_named("ys") {
                Err(_) => Ok((x, None)),
                Ok(ysv) => match ysv.into_items() {
                    Err(e) => Err(e),
                    Ok(v) => Ok((x, Some(v))),
                },
            },
        }
    }

    /// Evaluates the elements from the last down to the first, returning
    /// the value of the last evaluation (of element `0`), nil when there
    /// are none.
    #[verifier::loop_isolation(false)]
    fn eval_rev(&mut self, items: &Vec<Expression>, fuel: u64) -> (r: Result<Expression, Error>)
        ensures
            ({
                let (e2, res) = spec_eval_rev(
                    old(self)@,
                    seq_view(items@),
                    items@.len() - 1,
                    SpecExpr::Nil,
                    fuel as nat,
                );
                final(self)@ == e2 && res_view(r) == res
            }),
        decreases fuel, 1int, 0int,
    {
        let ghost env0 = self@;
        let ghost iv = seq_view(items@);
        let mut res = Expression::Nil;
        let mut j = items.len();
        loop
            invariant
                j <= items@.len(),
                spec_eval_rev(env0, iv, iv.len() - 1, SpecExpr::Nil, fuel as nat)
                    == spec_eval_rev(self@, iv, j - 1, res@, fuel as nat),
            decreases j,
        {
            if j == 0 {
                return Ok(res);
            }
            j = j - 1;
            match self.eval_inner(items[j].clone(), fuel) {
                Ok(v) => {
                    res = v;
                },
                Err(e) => {
                    return Err(e);
                },
            }
        }
    }

    /// One evaluation step, bounded by `fuel`.
    ///
    /// Returns, and leaves the environment, exactly as `spec_eval` says:
    /// an empty list is nil, a non-empty list runs the function
    /// application protocol in a fresh frame that is dropped again on
    /// every path, a symbol resolves through the data stack, and every
    /// other value evaluates to itself.
    pub fn eval_with_fuel(&mut self, expr: Expression, fuel: u64) -> (r: Result<Expression, Error>)
        ensures
            ({
                let (e2, res) = spec_eval(old(self)@, expr@, fuel as nat);
                final(self)@ == e2 && res_view(r) == res
            }),
    {
        self.eval_inner(expr, fuel)
    }

    /// The body of `eval_with_fuel`.
    fn eval_inner(&mut self, expr: Expression, fuel: u64) -> (r: Result<Expression, Error>)
        ensures
            ({
                let (e2, res) = spec_eval(old(self)@, expr@, fuel as nat);
                final(self)@ == e2 && res_view(r) == res
            }),
        decreases fuel, 0int, 0int,
    {
        if fuel == 0 {
            return Err(Error::StackError);
        }
        match expr {
            Expression::List(args) => {
                if args.len() == 0 {
                    return Ok(Expression::Nil);
                }
                let name = match args[0].clone().into_symbol() {
                    Ok(s) => s,
                    Err(e) => {
                        return Err(e);
                    },
                };
                self.push_frame();
                let looked = match self.find_builtin(name.as_str()) {
                    Some(f) => {
                        proof {
                            lemma_function_view(f);
                        }
                        match f {
                            Expression::Function(p, b) => Some((p.clone(), *b)),
                            _ => None,
                        }
                    },
                    None => None,
                };
                proof {
                    assert(looked is None ==> match self@.find_builtin(name@) {
                        Some(SpecExpr::Function(_, _)) => false,
                        _ => true,
                    });
                }
                let resolved = match looked {
                    Some(pb) => Some(pb),
                    None => match self.find_data(name.as_str()) {
                        Some(f) => {
                            proof {
                                lemma_function_view(f);
                            }
                            match f {
                                Expression::Function(p, b) => Some((p.clone(), *b)),
                                _ => None,
                            }
                        },
                        None => None,
                    },
                };
                proof {
                    assert(resolved is None ==> match self@.find_data(name@) {
                        Some(SpecExpr::Function(_, _)) => false,
                        _ => true,
                    });
                }
                let (params, body) = match resolved {
                    Some(pb) => pb,
                    None => {
                        self.pop_frame();
                        return Err(Error::ExpectedFunction);
                    },
                };
                match self.bind_args(params.as_str(), args) {
                    Err(e) => {
                        self.pop_frame();
                        return Err(e);
                    },
                    Ok(()) => {},
                }
                let r = self.apply(body.0, fuel - 1);
                self.pop_frame();
                r
            },
            Expression::Symbol(s) => match self.find_data(s.as_str()) {
                Some(d) => Ok(d.clone()),
                None => Err(Error::DataNotFound),
            },
            _ => Ok(expr),
        }
    }

    /// Runs the builtin body named by `tag` in the frame its arguments
    /// were bound into.
    fn apply(&mut self, tag: Builtin, fuel: u64) -> (r: Result<Expression, Error>)
        ensures
            ({
                let (e2, res) = spec_apply(tag, old(self)@, fuel as nat);
                final(self)@ == e2 && res_view(r) == res
            }),
        decreases fuel, 4int, 0int,
    {
        match tag {
            Builtin::Def => self.run_def(fuel),
            Builtin::Let => self.run_let(fuel),
            Builtin::If => self.run_if(fuel),
            Builtin::Do => self.run_do(fuel),
            Builtin::While => self.run_while(fuel),
            Builtin::DoSeq => self.run_doseq(fuel),
            Builtin::DoTimes => self.run_dotimes(fuel),
            Builtin::NewVector => self.run_vector(fuel),
            Builtin::Nth => self.run_nth(fuel),
            Builtin::Peek => self.run_peek(fuel),
            Builtin::Pop => self.run_pop(fuel),
            Builtin::Add => self.run_add(fuel),
            Builtin::Sub => self.run_sub(fuel),
            Builtin::Mul => self.run_mul(fuel),
            Builtin::Div => self.run_div(fuel),
            Builtin::Rem => self.run_rem(fuel),
            Builtin::Inc => self.run_inc(fuel),
            Builtin::Dec => self.run_dec(fuel),
            Builtin::Max => self.run_extreme(true, fuel),
            Builtin::Min => self.run_extreme(false, fuel),
            Builtin::CmpEq => self.run_eq(fuel),
            Builtin::CmpGt => self.run_rel(Builtin::CmpGt, fuel),
            Builtin::CmpGe => self.run_rel(Builtin::CmpGe, fuel),
            Builtin::CmpLt => self.run_rel(Builtin::CmpLt, fuel),
            Builtin::CmpLe => self.run_rel(Builtin::CmpLe, fuel),
            Builtin::BoolAnd => self.run_bool(true, fuel),
            Builtin::BoolOr => self.run_bool(false, fuel),
            Builtin::BoolNot => self.run_not(fuel),
        }
    }

    /// `def`: see `spec_run_def`.
    fn run_def(&mut self, fuel: u64) -> (r: Result<Expression, Error>)
        ensures
            ({
                let (e2, res) = spec_run_def(old(self)@, fuel as nat);
                final(self)@ == e2 && res_view(r) == res
            }),
        decreases fuel, 3int, 0int,
    {
        let a = match self.pop_stack_if_named("a") {
            Ok(v) => v,
            Err(e) => {
                return Err(e);
            },
        };
        let b = match self.pop_stack_if_named("b") {
            Ok(v) => v,
            Err(e) => {
                return Err(e);
            },
        };
        let data = match self.eval_inner(b, fuel) {
            Ok(v) => v,
            Err(e) => {
                return Err(e);
            },
        };
        match a {
            Expression::Symbol(name) => {
                let _ = self.define_var(name.as_str(), data);
                Ok(Expression::Nil)
            },
            _ => Err(Error::ExpectedSymbol),
        }
    }

    /// The binding pairs of a `let`, left to right.
    #[verifier::loop_isolation(false)]
    fn let_pairs(&mut self, bindings: &Vec<Expression>, fuel: u64) -> (r: Result<(), Error>)
        ensures
            ({
                let (e2, res) = spec_let_pairs(old(self)@, seq_view(bindings@), 0, fuel as nat);
                final(self)@ == e2 && r == res
            }),
        decreases fuel, 1int, 0int,
    {
        let ghost env0 = self@;
        let ghost bv = seq_view(bindings@);
        let mut i: usize = 0;
        loop
            invariant
                i <= bindings@.len() + 1,
                spec_let_pairs(env0, bv, 0, fuel as nat) == spec_let_pairs(
                    self@,
                    bv,
                    i as int,
                    fuel as nat,
                ),
            decreases bindings@.len() - i,
        {
            if bindings.len() == 0 || i >= bindings.len() - 1 {
                return Ok(());
            }
            match &bindings[i] {
                Expression::Symbol(name) => {
                    let val = match self.eval_inner(bindings[i + 1].clone(), fuel) {
                        Ok(v) => v,
                        Err(e) => {
                            return Err(e);
                        },
                    };
                    let name = name.clone();
                    let _ = self.push_stack(name.as_str(), val);
                    i = i + 2;
                },
                _ => {
                    return Err(Error::ExpectedSymbol);
                },
            }
        }
    }

    /// `let`: see `spec_run_let`.
    fn run_let(&mut self, fuel: u64) -> (r: Result<Expression, Error>)
        ensures
            ({
                let (e2, res) = spec_run_let(old(self)@, fuel as nat);
                final(self)@ == e2 && res_view(r) == res
            }),
        decreases fuel, 3int, 0int,
    {
        let bindings_v = match self.pop_stack_if_named("bindings") {
            Ok(v) => v,
            Err(_) => {
                return Err(Error::UnexpectedArgs);
            },
        };
        let bindings = match bindings_v.into_items() {
            Ok(v) => v,
            Err(e) => {
                return Err(e);
            },
        };
        let exprs_r = self.pop_stack_if_named("exprs");
        if bindings.len() % 2 != 0 {
            return Err(Error::UnbalancedBindings);
        }
        match self.let_pairs(&bindings, fuel) {
            Err(e) => {
                return Err(e);
            },
            Ok(()) => {},
        }
        match exprs_r {
            Err(_) => Ok(Expression::Nil),
            Ok(ev) => {
                let body = match ev.into_items() {
                    Ok(v) => v,
                    Err(e) => {
                        return Err(e);
                    },
                };
                self.eval_rev(&body, fuel)
            },
        }
    }

    /// `if`: see `spec_run_if`.
    fn run_if(&mut self, fuel: u64) -> (r: Result<Expression, Error>)
        ensures
            ({
                let (e2, res) = spec_run_if(old(self)@, fuel as nat);
                final(self)@ == e2 && res_view(r) == res
            }),
        decreases fuel, 3int, 0int,
    {
        let a = match self.pop_stack_if_named("a") {
            Ok(v) => v,
            Err(e) => {
                return Err(e);
            },
        };
        let b = match self.pop_stack_if_named("b") {
            Ok(v) => v,
            Err(e) => {
                return Err(e);
            },
        };
        let c = match self.pop_stack_if_named("c") {
            Ok(v) => v,
            Err(e) => {
                return Err(e);
            },
        };
        let tv = match self.eval_inner(a, fuel) {
            Ok(v) => v,
            Err(e) => {
                return Err(e);
            },
        };
        match tv {
            Expression::Nil => self.eval_inner(c, fuel),
            Expression::Bool(false) => self.eval_inner(c, fuel),
            _ => self.eval_inner(b, fuel),
        }
    }

    /// `do`: see `spec_run_do`.
    fn run_do(&mut self, fuel: u64) -> (r: Result<Expression, Error>)
        ensures
            ({
                let (e2, res) = spec_run_do(old(self)@, fuel as nat);
                final(self)@ == e2 && res_view(r) == res
            }),
        decreases fuel, 3int, 0int,
    {
        match self.take_args() {
            Err(e) => Err(e),
            Ok(None) => Ok(Expression::Nil),
            Ok(Some(items)) => self.eval_rev(&items, fuel),
        }
    }

    /// The `while` loop proper: test, then body, then again on less fuel.
    #[verifier::loop_isolation(false)]
    fn while_loop(&mut self, test: &Expression, body: &Vec<Expression>, fuel: u64) -> (r: Result<
        Expression,
        Error,
    >)
        ensures
            ({
                let (e2, res) = spec_while_loop(old(self)@, test@, seq_view(body@), fuel as nat);
                final(self)@ == e2 && res_view(r) == res
            }),
        decreases fuel, 2int, 0int,
    {
        let ghost env0 = self@;
        let ghost bv = seq_view(body@);
        let mut f = fuel;
        loop
            invariant
                f <= fuel,
                spec_while_loop(env0, test@, bv, fuel as nat) == spec_while_loop(
                    self@,
                    test@,
                    bv,
                    f as nat,
                ),
            decreases f,
        {
            if f == 0 {
                return Err(Error::StackError);
            }
            let tv = match self.eval_inner(test.clone(), f) {
                Ok(v) => v,
                Err(e) => {
                    return Err(e);
                },
            };
            let t = match tv.into_bool() {
                Ok(v) => v,
                Err(e) => {
                    return Err(e);
                },
            };
            if !t {
                return Ok(Expression::Nil);
            }
            match self.eval_rev(body, f) {
                Ok(_) => {},
                Err(e) => {
                    return Err(e);
                },
            }
            f = f - 1;
        }
    }

    /// `while`: see `spec_run_while`.
    fn run_while(&mut self, fuel: u64) -> (r: Result<Expression, Error>)
        ensures
            ({
                let (e2, res) = spec_run_while(old(self)@, fuel as nat);
                final(self)@ == e2 && res_view(r) == res
            }),
        decreases fuel, 3int, 0int,
    {
        match self.take_x_ys() {
            Err(e) => Err(e),
            Ok((_x, None)) => Ok(Expression::Nil),
            Ok((x, Some(ys))) => self.while_loop(&x, &ys, fuel),
        }
    }
}

} // verus!

verus! {

impl Environment {
    /// Checked addition folded over evaluated elements.
    #[verifier::loop_isolation(false)]
    fn fold_add(&mut self, items: &Vec<Expression>, acc0: i64, fuel: u64) -> (r: Result<
        Expression,
        Error,
    >)
        ensures
            ({
                let (e2, res) = spec_fold_add(old(self)@, seq_view(items@), 0, acc0, fuel as nat);
                final(self)@ == e2 && res_view(r) == res
            }),
        decreases fuel, 1int, 0int,
    {
        let ghost env0 = self@;
        let ghost iv = seq_view(items@);
        let mut acc = acc0;
        let mut i: usize = 0;
        loop
            invariant
                i <= items@.len(),
                spec_fold_add(env0, iv, 0, acc0, fuel as nat) == spec_fold_add(
                    self@,
                    iv,
                    i as int,
                    acc,
                    fuel as nat,
                ),
            decreases items@.len() - i,
        {
            if i >= items.len() {
                return Ok(Expression::Number(acc));
            }
            let v = match self.eval_inner(items[i].clone(), fuel) {
                Ok(v) => v,
                Err(e) => {
                    return Err(e);
                },
            };
            let n = match v.into_number() {
                Ok(n) => n,
                Err(e) => {
                    return Err(e);
                },
            };
            match acc.checked_add(n) {
                Some(a2) => {
                    acc = a2;
                    i = i + 1;
                },
                None => {
                    return Err(Error::MathError);
                },
            }
        }
    }

    /// Checked multiplication folded over evaluated elements.
    #[verifier::loop_isolation(false)]
    fn fold_mul(&mut self, items: &Vec<Expression>, acc0: i64, fuel: u64) -> (r: Result<
        Expression,
        Error,
    >)
        ensures
            ({
                let (e2, res) = spec_fold_mul(old(self)@, seq_view(items@), 0, acc0, fuel as nat);
                final(self)@ == e2 && res_view(r) == res
            }),
        decreases fuel, 1int, 0int,
    {
        let ghost env0 = self@;
        let ghost iv = seq_view(items@);
        let mut acc = acc0;
        let mut i: usize = 0;
        loop
            invariant
                i <= items@.len(),
                spec_fold_mul(env0, iv, 0, acc0, fuel as nat) == spec_fold_mul(
                    self@,
                    iv,
                    i as int,
                    acc,
                    fuel as nat,
                ),
            decreases items@.len() - i,
        {
            if i >= items.len() {
                return Ok(Expression::Number(acc));
            }
            let v = match self.eval_inner(items[i].clone(), fuel) {
                Ok(v) => v,
                Err(e) => {
                    return Err(e);
                },
            };
            let n = match v.into_number() {
                Ok(n) => n,
                Err(e) => {
                    return Err(e);
                },
            };
            match acc.checked_mul(n) {
                Some(a2) => {
                    acc = a2;
                    i = i + 1;
                },
                None => {
                    return Err(Error::MathError);
                },
            }
        }
    }

    /// Checked subtraction folded over evaluated elements.
    #[verifier::loop_isolation(false)]
    fn fold_sub(&mut self, items: &Vec<Expression>, acc0: i64, fuel: u64) -> (r: Result<
        Expression,
        Error,
    >)
        ensures
            ({
                let (e2, res) = spec_fold_sub(old(self)@, seq_view(items@), 0, acc0, fuel as nat);
                final(self)@ == e2 && res_view(r) == res
            }),
        decreases fuel, 1int, 0int,
    {
        let ghost env0 = self@;
        let ghost iv = seq_view(items@);
        let mut acc = acc0;
        let mut i: usize = 0;
        loop
            invariant
                i <= items@.len(),
                spec_fold_sub(env0, iv, 0, acc0, fuel as nat) == spec_fold_sub(
                    self@,
                    iv,
                    i as int,
                    acc,
                    fuel as nat,
                ),
            decreases items@.len() - i,
        {
            if i >= items.len() {
                return Ok(Expression::Number(acc));
            }
            let v = match self.eval_inner(items[i].clone(), fuel) {
                Ok(v) => v,
                Err(e) => {
                    return Err(e);
                },
            };
            let n = match v.into_number() {
                Ok(n) => n,
                Err(e) => {
                    return Err(e);
                },
            };
            match acc.checked_sub(n) {
                Some(a2) => {
                    acc = a2;
                    i = i + 1;
                },
                None => {
                    return Err(Error::MathError);
                },
            }
        }
    }

    /// Checked division folded over evaluated elements.
    #[verifier::loop_isolation(false)]
    fn fold_div(&mut self, items: &Vec<Expression>, acc0: i64, fuel: u64) -> (r: Result<
        Expression,
        Error,
    >)
        ensures
            ({
                let (e2, res) = spec_fold_div(old(self)@, seq_view(items@), 0, acc0, fuel as nat);
                final(self)@ == e2 && res_view(r) == res
            }),
        decreases fuel, 1int, 0int,
    {
        let ghost env0 = self@;
        let ghost iv = seq_view(items@);
        let mut acc = acc0;
        let mut i: usize = 0;
        loop
            invariant
                i <= items@.len(),
                spec_fold_div(env0, iv, 0, acc0, fuel as nat) == spec_fold_div(
                    self@,
                    iv,
                    i as int,
                    acc,
                    fuel as nat,
                ),
            decreases items@.len() - i,
        {
            if i >= items.len() {
                return Ok(Expression::Number(acc));
            }
            let v = match self.eval_inner(items[i].clone(), fuel) {
                Ok(v) => v,
                Err(e) => {
                    return Err(e);
                },
            };
            let n = match v.into_number() {
                Ok(n) => n,
                Err(e) => {
                    return Err(e);
                },
            };
            match acc.checked_div(n) {
                Some(a2) => {
                    acc = a2;
                    i = i + 1;
                },
                None => {
                    return Err(Error::MathError);
                },
            }
        }
    }

    /// `+`: see `spec_run_add`.
    fn run_add(&mut self, fuel: u64) -> (r: Result<Expression, Error>)
        ensures
            ({
                let (e2, res) = spec_run_add(old(self)@, fuel as nat);
                final(self)@ == e2 && res_view(r) == res
            }),
        decreases fuel, 3int, 0int,
    {
        match self.take_args() {
            Err(e) => Err(e),
            Ok(None) => Ok(Expression::Number(0)),
            Ok(Some(items)) => self.fold_add(&items, 0, fuel),
        }
    }

    /// `*`: see `spec_run_mul`.
    fn run_mul(&mut self, fuel: u64) -> (r: Result<Expression, Error>)
        ensures
            ({
                let (e2, res) = spec_run_mul(old(self)@, fuel as nat);
                final(self)@ == e2 && res_view(r) == res
            }),
        decreases fuel, 3int, 0int,
    {
        match self.take_args() {
            Err(e) => Err(e),
            Ok(None) => Ok(Expression::Number(1)),
            Ok(Some(items)) => self.fold_mul(&items, 1, fuel),
        }
    }

    /// `-`: see `spec_run_sub`.
    fn run_sub(&mut self, fuel: u64) -> (r: Result<Expression, Error>)
        ensures
            ({
                let (e2, res) = spec_run_sub(old(self)@, fuel as nat);
                final(self)@ == e2 && res_view(r) == res
            }),
        decreases fuel, 3int, 0int,
    {
        match self.take_x_ys() {
            Err(e) => Err(e),
            Ok((x, None)) => {
                let v = match self.eval_inner(x, fuel) {
                    Ok(v) => v,
                    Err(e) => {
                        return Err(e);
                    },
                };
                let n = match v.into_number() {
                    Ok(n) => n,
                    Err(e) => {
                        return Err(e);
                    },
                };
                if n == i64::MIN {
                    Err(Error::MathError)
                } else {
                    Ok(Expression::Number(-n))
                }
            },
            Ok((x, Some(ys))) => {
                let v = match self.eval_inner(x, fuel) {
                    Ok(v) => v,
                    Err(e) => {
                        return Err(e);
                    },
                };
                let n = match v.into_number() {
                    Ok(n) => n,
                    Err(e) => {
                        return Err(e);
                    },
                };
                self.fold_sub(&ys, n, fuel)
            },
        }
    }

    /// `/`: see `spec_run_div`.
    fn run_div(&mut self, fuel: u64) -> (r: Result<Expression, Error>)
        ensures
            ({
                let (e2, res) = spec_run_div(old(self)@, fuel as nat);
                final(self)@ == e2 && res_view(r) == res
            }),
        decreases fuel, 3int, 0int,
    {
        match self.take_x_ys() {
            Err(e) => Err(e),
            Ok((x, None)) => {
                let v = match self.eval_inner(x, fuel) {
                    Ok(v) => v,
                    Err(e) => {
                        return Err(e);
                    },
                };
                let n = match v.into_number() {
                    Ok(n) => n,
                    Err(e) => {
                        return Err(e);
                    },
                };
                match (1i64).checked_div(n) {
                    Some(q) => Ok(Expression::Number(q)),
                    None => Err(Error::MathError),
                }
            },
            Ok((x, Some(ys))) => {
                let v = match self.eval_inner(x, fuel) {
                    Ok(v) => v,
                    Err(e) => {
                        return Err(e);
                    },
                };
                let n = match v.into_number() {
                    Ok(n) => n,
                    Err(e) => {
                        return Err(e);
                    },
                };
                self.fold_div(&ys, n, fuel)
            },
        }
    }

    /// `rem`: see `spec_run_rem`.
    fn run_rem(&mut self, fuel: u64) -> (r: Result<Expression, Error>)
        ensures
            ({
                let (e2, res) = spec_run_rem(old(self)@, fuel as nat);
                final(self)@ == e2 && res_view(r) == res
            }),
        decreases fuel, 3int, 0int,
    {
        let a = match self.pop_stack_if_named("a") {
            Ok(v) => v,
            Err(e) => {
                return Err(e);
            },
        };
        let b = match self.pop_stack_if_named("b") {
            Ok(v) => v,
            Err(e) => {
                return Err(e);
            },
        };
        let nv = match self.eval_inner(a, fuel) {
            Ok(v) => v,
            Err(e) => {
                return Err(e);
            },
        };
        let num = match nv.into_number() {
            Ok(n) => n,
            Err(e) => {
                return Err(e);
            },
        };
        let dv = match self.eval_inner(b, fuel) {
            Ok(v) => v,
            Err(e) => {
                return Err(e);
            },
        };
        let div = match dv.into_number() {
            Ok(n) => n,
            Err(e) => {
                return Err(e);
            },
        };
        match num.checked_rem(div) {
            Some(m) => Ok(Expression::Number(m)),
            None => Err(Error::MathError),
        }
    }

    /// `inc`: see `spec_run_inc`.
    fn run_inc(&mut self, fuel: u64) -> (r: Result<Expression, Error>)
        ensures
            ({
                let (e2, res) = spec_run_inc(old(self)@, fuel as nat);
                final(self)@ == e2 && res_view(r) == res
            }),
        decreases fuel, 3int, 0int,
    {
        let x = match self.pop_stack_if_named("x") {
            Ok(v) => v,
            Err(e) => {
                return Err(e);
            },
        };
        let v = match self.eval_inner(x, fuel) {
            Ok(v) => v,
            Err(e) => {
                return Err(e);
            },
        };
        let n = match v.into_number() {
            Ok(n) => n,
            Err(e) => {
                return Err(e);
            },
        };
        match n.checked_add(1) {
            Some(m) => Ok(Expression::Number(m)),
            None => Err(Error::MathError),
        }
    }

    /// `dec`: see `spec_run_dec`.
    fn run_dec(&mut self, fuel: u64) -> (r: Result<Expression, Error>)
        ensures
            ({
                let (e2, res) = spec_run_dec(old(self)@, fuel as nat);
                final(self)@ == e2 && res_view(r) == res
            }),
        decreases fuel, 3int, 0int,
    {
        let x = match self.pop_stack_if_named("x") {
            Ok(v) => v,
            Err(e) => {
                return Err(e);
            },
        };
        let v = match self.eval_inner(x, fuel) {
            Ok(v) => v,
            Err(e) => {
                return Err(e);
            },
        };
        let n = match v.into_number() {
            Ok(n) => n,
            Err(e) => {
                return Err(e);
            },
        };
        match n.checked_sub(1) {
            Some(m) => Ok(Expression::Number(m)),
            None => Err(Error::MathError),
        }
    }

    /// `not`: see `spec_run_not`.
    fn run_not(&mut self, fuel: u64) -> (r: Result<Expression, Error>)
        ensures
            ({
                let (e2, res) = spec_run_not(old(self)@, fuel as nat);
                final(self)@ == e2 && res_view(r) == res
            }),
        decreases fuel, 3int, 0int,
    {
        let x = match self.pop_stack_if_named("x") {
            Ok(v) => v,
            Err(e) => {
                return Err(e);
            },
        };
        let v = match self.eval_inner(x, fuel) {
            Ok(v) => v,
            Err(e) => {
                return Err(e);
            },
        };
        match v.into_bool() {
            Ok(b) => Ok(Expression::Bool(!b)),
            Err(e) => Err(e),
        }
    }

    /// Conjunction or disjunction folded over evaluated elements.
    #[verifier::loop_isolation(false)]
    fn fold_bool(&mut self, conj: bool, items: &Vec<Expression>, acc0: bool, fuel: u64) -> (r:
        Result<Expression, Error>)
        ensures
            ({
                let (e2, res) = spec_fold_bool(
                    old(self)@,
                    conj,
                    seq_view(items@),
                    0,
                    acc0,
                    fuel as nat,
                );
                final(self)@ == e2 && res_view(r) == res
            }),
        decreases fuel, 1int, 0int,
    {
        let ghost env0 = self@;
        let ghost iv = seq_view(items@);
        let mut acc = acc0;
        let mut i: usize = 0;
        loop
            invariant
                i <= items@.len(),
                spec_fold_bool(env0, conj, iv, 0, acc0, fuel as nat) == spec_fold_bool(
                    self@,
                    conj,
                    iv,
                    i as int,
                    acc,
                    fuel as nat,
                ),
            decreases items@.len() - i,
        {
            if i >= items.len() {
                return Ok(Expression::Bool(acc));
            }
            let v = match self.eval_inner(items[i].clone(), fuel) {
                Ok(v) => v,
                Err(e) => {
                    return Err(e);
                },
            };
            let b = match v.into_bool() {
                Ok(b) => b,
                Err(e) => {
                    return Err(e);
                },
            };
            acc = if conj {
                acc && b
            } else {
                acc || b
            };
            i = i + 1;
        }
    }

    /// `and` and `or`: see `spec_run_bool`.
    fn run_bool(&mut self, conj: bool, fuel: u64) -> (r: Result<Expression, Error>)
        ensures
            ({
                let (e2, res) = spec_run_bool(old(self)@, conj, fuel as nat);
                final(self)@ == e2 && res_view(r) == res
            }),
        decreases fuel, 3int, 0int,
    {
        match self.take_args() {
            Err(e) => Err(e),
            Ok(None) => Ok(Expression::Bool(conj)),
            Ok(Some(items)) => self.fold_bool(conj, &items, conj, fuel),
        }
    }
}

} // verus!

verus! {

/// Which of an accumulated value and a later value survives one step of
/// `max` or `min`.
fn cmp_keep(greatest: bool, acc: Expression, v: Expression) -> (r: Result<Expression, Error>)
    ensures
        match r {
            Ok(e) => spec_cmp_keep(greatest, acc@, v@) == Ok::<SpecExpr, Error>(e@),
            Err(er) => spec_cmp_keep(greatest, acc@, v@) == Err::<SpecExpr, Error>(er),
        },
{
    if greatest {
        match acc.try_cmp(&v) {
            Err(e) => Err(e),
            Ok(ExprOrder::Greater) => Ok(acc),
            Ok(_) => Ok(v),
        }
    } else {
        match v.try_cmp(&acc) {
            Err(e) => Err(e),
            Ok(ExprOrder::Less) => Ok(v),
            Ok(_) => Ok(acc),
        }
    }
}

/// Whether the chained comparison `tag` accepts the ordered pair.
fn rel_holds(tag: Builtin, a: &Expression, b: &Expression) -> (r: bool)
    ensures
        r == spec_rel_holds(tag, a@, b@),
{
    match a.partial_compare(b) {
        Some(o) => match tag {
            Builtin::CmpGt => matches!(o, ExprOrder::Greater),
            Builtin::CmpGe => matches!(o, ExprOrder::Greater) || matches!(o, ExprOrder::Equal),
            Builtin::CmpLt => matches!(o, ExprOrder::Less),
            Builtin::CmpLe => matches!(o, ExprOrder::Less) || matches!(o, ExprOrder::Equal),
            _ => false,
        },
        None => false,
    }
}

impl Environment {
    /// The survivor among evaluated elements and the pre-evaluated last
    /// value, under `max` or `min`.
    #[verifier::loop_isolation(false)]
    fn fold_extreme(
        &mut self,
        greatest: bool,
        items: &Vec<Expression>,
        acc0: Expression,
        last: Expression,
        fuel: u64,
    ) -> (r: Result<Expression, Error>)
        ensures
            ({
                let (e2, res) = spec_fold_extreme(
                    old(self)@,
                    greatest,
                    seq_view(items@),
                    1,
                    acc0@,
                    last@,
                    fuel as nat,
                );
                final(self)@ == e2 && res_view(r) == res
            }),
        decreases fuel, 1int, 0int,
    {
        let ghost env0 = self@;
        let ghost iv = seq_view(items@);
        let ghost lastv = last@;
        let mut acc = acc0;
        let mut i: usize = 1;
        loop
            invariant
                1 <= i,
                i <= items@.len() || i == 1,
                spec_fold_extreme(env0, greatest, iv, 1, acc0@, lastv, fuel as nat)
                    == spec_fold_extreme(self@, greatest, iv, i as int, acc@, lastv, fuel as nat),
                last@ == lastv,
            decreases items@.len() - i,
        {
            if i >= items.len() {
                return cmp_keep(greatest, acc, last);
            }
            let v = match self.eval_inner(items[i].clone(), fuel) {
                Ok(v) => v,
                Err(e) => {
                    return Err(e);
                },
            };
            match cmp_keep(greatest, acc, v) {
                Err(e) => {
                    return Err(e);
                },
                Ok(kept) => {
                    acc = kept;
                },
            }
            i = i + 1;
        }
    }

    /// `max` and `min`: see `spec_run_extreme`.
    fn run_extreme(&mut self, greatest: bool, fuel: u64) -> (r: Result<Expression, Error>)
        ensures
            ({
                let (e2, res) = spec_run_extreme(old(self)@, greatest, fuel as nat);
                final(self)@ == e2 && res_view(r) == res
            }),
        decreases fuel, 3int, 0int,
    {
        match self.take_x_ys() {
            Err(e) => Err(e),
            Ok((x, None)) => self.eval_inner(x, fuel),
            Ok((x, Some(ys))) => {
                let xv = match self.eval_inner(x, fuel) {
                    Ok(v) => v,
                    Err(e) => {
                        return Err(e);
                    },
                };
                if ys.len() == 0 {
                    Ok(xv)
                } else {
                    let first = match self.eval_inner(ys[0].clone(), fuel) {
                        Ok(v) => v,
                        Err(e) => {
                            return Err(e);
                        },
                    };
                    self.fold_extreme(greatest, &ys, first, xv, fuel)
                }
            },
        }
    }

    /// Chained structural equality folded over evaluated elements.
    #[verifier::loop_isolation(false)]
    fn fold_eq(&mut self, items: &Vec<Expression>, prev0: Expression, fuel: u64) -> (r: Result<
        Expression,
        Error,
    >)
        ensures
            ({
                let (e2, res) = spec_fold_eq(
                    old(self)@,
                    seq_view(items@),
                    0,
                    prev0@,
                    true,
                    fuel as nat,
                );
                final(self)@ == e2 && res_view(r) == res
            }),
        decreases fuel, 1int, 0int,
    {
        let ghost env0 = self@;
        let ghost iv = seq_view(items@);
        let mut prev = prev0;
        let mut acc = true;
        let mut i: usize = 0;
        loop
            invariant
                i <= items@.len(),
                spec_fold_eq(env0, iv, 0, prev0@, true, fuel as nat) == spec_fold_eq(
                    self@,
                    iv,
                    i as int,
                    prev@,
                    acc,
                    fuel as nat,
                ),
            decreases items@.len() - i,
        {
            if i >= items.len() {
                return Ok(Expression::Bool(acc));
            }
            let v = match self.eval_inner(items[i].clone(), fuel) {
                Ok(v) => v,
                Err(e) => {
                    return Err(e);
                },
            };
            acc = acc && prev.expr_eq(&v);
            prev = v;
            i = i + 1;
        }
    }

    /// `==`: see `spec_run_eq`.
    fn run_eq(&mut self, fuel: u64) -> (r: Result<Expression, Error>)
        ensures
            ({
                let (e2, res) = spec_run_eq(old(self)@, fuel as nat);
                final(self)@ == e2 && res_view(r) == res
            }),
        decreases fuel, 3int, 0int,
    {
        match self.take_x_ys() {
            Err(e) => Err(e),
            Ok((_x, None)) => Ok(Expression::Bool(true)),
            Ok((x, Some(ys))) => {
                let xv = match self.eval_inner(x, fuel) {
                    Ok(v) => v,
                    Err(e) => {
                        return Err(e);
                    },
                };
                self.fold_eq(&ys, xv, fuel)
            },
        }
    }

    /// A chained relational comparison folded over evaluated elements in
    /// original call order.
    #[verifier::loop_isolation(false)]
    fn fold_rel(&mut self, tag: Builtin, items: &Vec<Expression>, prev0: Expression, fuel: u64) -> (r: Result<Expression, Error>)
        ensures
            ({
                let (e2, res) = spec_fold_rel(
                    old(self)@,
                    tag,
                    seq_view(items@),
                    items@.len() - 1,
                    prev0@,
                    true,
                    fuel as nat,
                );
                final(self)@ == e2 && res_view(r) == res
            }),
        decreases fuel, 1int, 0int,
    {
        let ghost env0 = self@;
        let ghost iv = seq_view(items@);
        let mut prev = prev0;
        let mut acc = true;
        let mut j = items.len();
        loop
            invariant
                j <= items@.len(),
                spec_fold_rel(env0, tag, iv, iv.len() - 1, prev0@, true, fuel as nat)
                    == spec_fold_rel(self@, tag, iv, j - 1, prev@, acc, fuel as nat),
            decreases j,
        {
            if j == 0 {
                return Ok(Expression::Bool(acc));
            }
            j = j - 1;
            let v = match self.eval_inner(items[j].clone(), fuel) {
                Ok(v) => v,
                Err(e) => {
                    return Err(e);
                },
            };
            acc = acc && rel_holds(tag, &prev, &v);
            prev = v;
        }
    }

    /// `>`, `>=`, `<`, `<=`: see `spec_run_rel`.
    fn run_rel(&mut self, tag: Builtin, fuel: u64) -> (r: Result<Expression, Error>)
        ensures
            ({
                let (e2, res) = spec_run_rel(old(self)@, tag, fuel as nat);
                final(self)@ == e2 && res_view(r) == res
            }),
        decreases fuel, 3int, 0int,
    {
        match self.take_x_ys() {
            Err(e) => Err(e),
            Ok((_x, None)) => Ok(Expression::Bool(true)),
            Ok((x, Some(ys))) => {
                let xv = match self.eval_inner(x, fuel) {
                    Ok(v) => v,
                    Err(e) => {
                        return Err(e);
                    },
                };
                self.fold_rel(tag, &ys, xv, fuel)
            },
        }
    }

    /// Evaluated elements gathered into a vector in original call order.
    #[verifier::loop_isolation(false)]
    fn gather_rev(&mut self, items: &Vec<Expression>, fuel: u64) -> (r: Result<
        Vec<Expression>,
        Error,
    >)
        ensures
            ({
                let (e2, res) = spec_gather_rev(
                    old(self)@,
                    seq_view(items@),
                    items@.len() - 1,
                    Seq::empty(),
                    fuel as nat,
                );
                final(self)@ == e2 && match (r, res) {
                    (Ok(v), Ok(s)) => seq_view(v@) == s,
                    (Err(a), Err(b)) => a == b,
                    _ => false,
                }
            }),
        decreases fuel, 1int, 0int,
    {
        let ghost env0 = self@;
        let ghost iv = seq_view(items@);
        let mut vals: Vec<Expression> = Vec::new();
        let mut j = items.len();
        proof {
            assert(seq_view(vals@) =~~= Seq::<SpecExpr>::empty());
        }
        loop
            invariant
                j <= items@.len(),
                spec_gather_rev(env0, iv, iv.len() - 1, Seq::empty(), fuel as nat)
                    == spec_gather_rev(self@, iv, j - 1, seq_view(vals@), fuel as nat),
            decreases j,
        {
            if j == 0 {
                return Ok(vals);
            }
            j = j - 1;
            let v = match self.eval_inner(items[j].clone(), fuel) {
                Ok(v) => v,
                Err(e) => {
                    return Err(e);
                },
            };
            let ghost v0 = seq_view(vals@);
            vals.push(v);
            proof {
                assert(seq_view(vals@) =~~= v0.push(vals@.last()@));
            }
        }
    }

    /// `vector`: see `spec_run_vector`.
    fn run_vector(&mut self, fuel: u64) -> (r: Result<Expression, Error>)
        ensures
            ({
                let (e2, res) = spec_run_vector(old(self)@, fuel as nat);
                final(self)@ == e2 && res_view(r) == res
            }),
        decreases fuel, 3int, 0int,
    {
        match self.take_args() {
            Err(e) => Err(e),
            Ok(None) => {
                let empty: Vec<Expression> = Vec::new();
                proof {
                    assert(seq_view(empty@) =~~= Seq::<SpecExpr>::empty());
                }
                Ok(Expression::Vector(empty))
            },
            Ok(Some(items)) => match self.gather_rev(&items, fuel) {
                Err(e) => Err(e),
                Ok(vals) => Ok(Expression::Vector(vals)),
            },
        }
    }

    /// The tail of `nth` once the index value is at hand.
    fn nth_index(&mut self, vec: Vec<Expression>, iv: Expression, dnf: Expression, fuel: u64) -> (r:
        Result<Expression, Error>)
        ensures
            ({
                let (e2, res) = spec_nth_index(old(self)@, seq_view(vec@), iv@, dnf@, fuel as nat);
                final(self)@ == e2 && res_view(r) == res
            }),
        decreases fuel, 1int, 0int,
    {
        match iv {
            Expression::Number(idx) => {
                if idx >= 0 && (idx as u64) < (vec.len() as u64) {
                    Ok(vec[idx as usize].clone())
                } else {
                    self.eval_inner(dnf, fuel)
                }
            },
            _ => Err(Error::TypeMismatch),
        }
    }

    /// `nth`: see `spec_run_nth`.
    fn run_nth(&mut self, fuel: u64) -> (r: Result<Expression, Error>)
        ensures
            ({
                let (e2, res) = spec_run_nth(old(self)@, fuel as nat);
                final(self)@ == e2 && res_view(r) == res
            }),
        decreases fuel, 3int, 0int,
    {
        let vecv = match self.pop_stack_if_named("vec") {
            Ok(v) => v,
            Err(e) => {
                return Err(e);
            },
        };
        let vec = match vecv.into_items() {
            Ok(v) => v,
            Err(_) => {
                return Err(Error::ExpectedVector);
            },
        };
        let argsv = match self.pop_stack_if_named("args") {
            Ok(v) => v,
            Err(_) => {
                return Err(Error::TooFewArgs);
            },
        };
        let mut args = match argsv.into_items() {
            Ok(v) => v,
            Err(e) => {
                return Err(e);
            },
        };
        if args.len() == 0 {
            Err(Error::TooFewArgs)
        } else if args.len() == 1 {
            let a0 = match args.pop() {
                Some(v) => v,
                None => {
                    proof {
                        assert(false);
                    }
                    return Err(Error::TooFewArgs);
                },
            };
            let ivv = match self.eval_inner(a0, fuel) {
                Ok(v) => v,
                Err(e) => {
                    return Err(e);
                },
            };
            self.nth_index(vec, ivv, Expression::Nil, fuel)
        } else if args.len() == 2 {
            let a1 = match args.pop() {
                Some(v) => v,
                None => {
                    proof {
                        assert(false);
                    }
                    return Err(Error::TooFewArgs);
                },
            };
            let a0 = match args.pop() {
                Some(v) => v,
                None => {
                    proof {
                        assert(false);
                    }
                    return Err(Error::TooFewArgs);
                },
            };
            let ivv = match self.eval_inner(a1, fuel) {
                Ok(v) => v,
                Err(e) => {
                    return Err(e);
                },
            };
            self.nth_index(vec, ivv, a0, fuel)
        } else {
            Err(Error::TooManyArgs)
        }
    }

    /// `peek`: see `spec_run_peek`.
    fn run_peek(&mut self, fuel: u64) -> (r: Result<Expression, Error>)
        ensures
            ({
                let (e2, res) = spec_run_peek(old(self)@, fuel as nat);
                final(self)@ == e2 && res_view(r) == res
            }),
        decreases fuel, 3int, 0int,
    {
        let vecv = match self.pop_stack_if_named("vec") {
            Ok(v) => v,
            Err(e) => {
                return Err(e);
            },
        };
        let vec = match vecv.into_items() {
            Ok(v) => v,
            Err(_) => {
                return Err(Error::ExpectedVector);
            },
        };
        if vec.len() > 0 {
            Ok(vec[vec.len() - 1].clone())
        } else {
            Err(Error::Empty)
        }
    }

    /// `pop`: see `spec_run_pop`.
    fn run_pop(&mut self, fuel: u64) -> (r: Result<Expression, Error>)
        ensures
            ({
                let (e2, res) = spec_run_pop(old(self)@, fuel as nat);
                final(self)@ == e2 && res_view(r) == res
            }),
        decreases fuel, 3int, 0int,
    {
        let vecv = match self.pop_stack_if_named("vec") {
            Ok(v) => v,
            Err(e) => {
                return Err(e);
            },
        };
        let mut vec = match vecv.into_items() {
            Ok(v) => v,
            Err(_) => {
                return Err(Error::ExpectedVector);
            },
        };
        let ghost v0 = seq_view(vec@);
        match vec.pop() {
            Some(_) => {
                proof {
                    assert(seq_view(vec@) =~~= v0.drop_last());
                }
                Ok(Expression::Vector(vec))
            },
            None => Err(Error::Empty),
        }
    }

    /// The `dotimes` rounds.
    #[verifier::loop_isolation(false)]
    fn dotimes_rounds(&mut self, var: &str, body: &Expression, range: i64, fuel: u64) -> (r: Result<
        Expression,
        Error,
    >)
        ensures
            ({
                let (e2, res) = spec_dotimes_rounds(old(self)@, var@, body@, 0, range, fuel as nat);
                final(self)@ == e2 && res_view(r) == res
            }),
        decreases fuel, 1int, 0int,
    {
        let ghost env0 = self@;
        let mut i: i64 = 0;
        loop
            invariant
                0 <= i,
                i <= range || i == 0,
                spec_dotimes_rounds(env0, var@, body@, 0, range, fuel as nat)
                    == spec_dotimes_rounds(self@, var@, body@, i as int, range, fuel as nat),
            decreases range - i,
        {
            if i >= range {
                return Ok(Expression::Nil);
            }
            let _ = self.push_stack(var, Expression::Number(i));
            match self.eval_inner(body.clone(), fuel) {
                Ok(_) => {},
                Err(e) => {
                    return Err(e);
                },
            }
            i = i + 1;
        }
    }

    /// `dotimes`: see `spec_run_dotimes`.
    fn run_dotimes(&mut self, fuel: u64) -> (r: Result<Expression, Error>)
        ensures
            ({
                let (e2, res) = spec_run_dotimes(old(self)@, fuel as nat);
                final(self)@ == e2 && res_view(r) == res
            }),
        decreases fuel, 3int, 0int,
    {
        let a = match self.pop_stack_if_named("a") {
            Ok(v) => v,
            Err(e) => {
                return Err(e);
            },
        };
        let b = match self.pop_stack_if_named("b") {
            Ok(v) => v,
            Err(e) => {
                return Err(e);
            },
        };
        let bindsv = match self.eval_inner(a, fuel) {
            Ok(v) => v,
            Err(e) => {
                return Err(e);
            },
        };
        let binds = match bindsv.into_items() {
            Ok(v) => v,
            Err(e) => {
                return Err(e);
            },
        };
        if binds.len() != 2 {
            return Err(Error::UnbalancedBindings);
        }
        match &binds[0] {
            Expression::Symbol(var) => {
                let var = var.clone();
                let rv = match self.eval_inner(binds[1].clone(), fuel) {
                    Ok(v) => v,
                    Err(e) => {
                        return Err(e);
                    },
                };
                let range = match rv.into_number() {
                    Ok(n) => n,
                    Err(e) => {
                        return Err(e);
                    },
                };
                self.dotimes_rounds(var.as_str(), &b, range, fuel)
            },
            _ => Err(Error::ExpectedSymbol),
        }
    }
}

} // verus!

verus! {

/// The model of an optional count accumulator.
pub open spec fn acc_view(o: Option<usize>) -> Option<int> {
    match o {
        Some(n) => Some(n as int),
        None => None,
    }
}

/// The shared vector length of a `doseq` binding list.
#[verifier::loop_isolation(false)]
fn doseq_count(bindings: &Vec<Expression>) -> (r: Result<usize, Error>)
    ensures
        match r {
            Ok(c) => spec_doseq_count(seq_view(bindings@), 0, None) == Ok::<int, Error>(c as int),
            Err(e) => spec_doseq_count(seq_view(bindings@), 0, None) == Err::<int, Error>(e),
        },
{
    let ghost bv = seq_view(bindings@);
    let mut i: usize = 0;
    let mut acc: Option<usize> = None;
    loop
        invariant
            i <= bindings@.len() + 1,
            spec_doseq_count(bv, 0, None) == spec_doseq_count(bv, i as int, acc_view(acc)),
        decreases bindings@.len() - i,
    {
        if bindings.len() == 0 || i >= bindings.len() - 1 {
            match acc {
                Some(n) => {
                    return Ok(n);
                },
                None => {
                    return Ok(0);
                },
            }
        }
        let first_is_symbol = bindings[i].is_symbol();
        match &bindings[i + 1] {
            Expression::Vector(vals) => {
                if !first_is_symbol {
                    return Err(Error::TypeMismatch);
                }
                proof {
                    let ghost vs2 = seq_view(vals@);
                    assert(bv[i + 1] == SpecExpr::Vector(vs2));
                    assert(vs2.len() == vals@.len());
                }
                match acc {
                    None => {
                        acc = Some(vals.len());
                    },
                    Some(n) => {
                        if n != vals.len() {
                            return Err(Error::UnbalancedBindings);
                        }
                    },
                }
                i = i + 2;
            },
            _ => {
                return Err(Error::TypeMismatch);
            },
        }
    }
}

impl Environment {
    /// One `doseq` round: each pair pushes element `t` of its vector.
    #[verifier::loop_isolation(false)]
    #[verifier::rlimit(60)]
    fn doseq_pairs(&mut self, bindings: &Vec<Expression>, t: usize, count: usize, fuel: u64) -> (r:
        Result<(), Error>)
        requires
            spec_doseq_count(seq_view(bindings@), 0, None) == Ok::<int, Error>(count as int),
            t < count,
        ensures
            ({
                let (e2, res) = spec_doseq_pairs(old(self)@, seq_view(bindings@), 0, t as int, fuel as nat);
                final(self)@ == e2 && r == res
            }),
        decreases fuel, 1int, 0int,
    {
        let ghost env0 = self@;
        let ghost bv = seq_view(bindings@);
        let mut i: usize = 0;
        loop
            invariant
                i <= bindings@.len() + 1,
                i % 2 == 0,
                spec_doseq_pairs(env0, bv, 0, t as int, fuel as nat) == spec_doseq_pairs(
                    self@,
                    bv,
                    i as int,
                    t as int,
                    fuel as nat,
                ),
            decreases bindings@.len() - i,
        {
            if bindings.len() == 0 || i >= bindings.len() - 1 {
                return Ok(());
            }
            let var = match &bindings[i] {
                Expression::Symbol(s) => Some(s.clone()),
                _ => None,
            };
            match &bindings[i + 1] {
                Expression::Vector(vals) => {
                    let var = match var {
                        Some(v) => v,
                        None => {
                            return Err(Error::TypeMismatch);
                        },
                    };
                    proof {
                        lemma_doseq_count(bv, 0, None, count as int);
                        assert(bv[i as int] is Symbol);
                        let ghost vs2 = seq_view(vals@);
                        assert(bv[i + 1] == SpecExpr::Vector(vs2));
                        assert(vs2.len() == count);
                        assert(vals@.len() == count);
                    }
                    let val = match self.eval_inner(vals[t].clone(), fuel) {
                        Ok(v) => v,
                        Err(e) => {
                            return Err(e);
                        },
                    };
                    let _ = self.push_stack(var.as_str(), val);
                    i = i + 2;
                },
                _ => {
                    return Err(Error::TypeMismatch);
                },
            }
        }
    }

    /// The `doseq` rounds.
    #[verifier::loop_isolation(false)]
    fn doseq_rounds(
        &mut self,
        bindings: &Vec<Expression>,
        exprs: &Option<Expression>,
        count: usize,
        fuel: u64,
    ) -> (r: Result<Expression, Error>)
        requires
            spec_doseq_count(seq_view(bindings@), 0, None) == Ok::<int, Error>(count as int),
        ensures
            ({
                let (e2, res) = spec_doseq_rounds(
                    old(self)@,
                    seq_view(bindings@),
                    opt_view(*exprs),
                    0,
                    count as int,
                    fuel as nat,
                );
                final(self)@ == e2 && res_view(r) == res
            }),
        decreases fuel, 2int, 0int,
    {
        let ghost env0 = self@;
        let ghost bv = seq_view(bindings@);
        let ghost ev = opt_view(*exprs);
        let mut t: usize = 0;
        loop
            invariant
                t <= count,
                spec_doseq_rounds(env0, bv, ev, 0, count as int, fuel as nat) == spec_doseq_rounds(
                    self@,
                    bv,
                    ev,
                    t as int,
                    count as int,
                    fuel as nat,
                ),
            decreases count - t,
        {
            if t >= count {
                return Ok(Expression::Nil);
            }
            match self.doseq_pairs(bindings, t, count, fuel) {
                Ok(()) => {},
                Err(e) => {
                    return Err(e);
                },
            }
            match exprs {
                None => {},
                Some(ev_exec) => {
                    let body = match ev_exec.clone().into_items() {
                        Ok(v) => v,
                        Err(e) => {
                            return Err(e);
                        },
                    };
                    match self.eval_rev(&body, fuel) {
                        Ok(_) => {},
                        Err(e) => {
                            return Err(e);
                        },
                    }
                },
            }
            t = t + 1;
        }
    }

    /// `doseq`: see `spec_run_doseq`.
    fn run_doseq(&mut self, fuel: u64) -> (r: Result<Expression, Error>)
        ensures
            ({
                let (e2, res) = spec_run_doseq(old(self)@, fuel as nat);
                final(self)@ == e2 && res_view(r) == res
            }),
        decreases fuel, 3int, 0int,
    {
        let bindings_v = match self.pop_stack_if_named("bindings") {
            Ok(v) => v,
            Err(_) => {
                return Err(Error::UnexpectedArgs);
            },
        };
        let bindings = match bindings_v.into_items() {
            Ok(v) => v,
            Err(e) => {
                return Err(e);
            },
        };
        let exprs_r = self.pop_stack_if_named("exprs");
        let exprs = match exprs_r {
            Ok(v) => Some(v),
            Err(_) => None,
        };
        if bindings.len() % 2 != 0 {
            return Err(Error::UnbalancedBindings);
        }
        let count = match doseq_count(&bindings) {
            Ok(c) => c,
            Err(e) => {
                return Err(e);
            },
        };
        self.doseq_rounds(&bindings, &exprs, count, fuel)
    }

    /// Registers the default builtin set, in order; a collision with an
    /// already registered name stops at that entry with `DuplicateSymbol`.
    #[verifier::rlimit(60)]
    pub fn load_default_builtins(&mut self) -> (r: Result<(), Error>)
        ensures
            ({
                let (e2, res) = spec_load_defaults(old(self)@);
                final(self)@ == e2 && r == res
            }),
    {
        match self.load_builtin("def", ("a b", FnBody(Builtin::Def))) {
            Ok(()) => {},
            Err(e) => {
                return Err(e);
            },
        }
        match self.load_builtin("let", ("bindings & exprs", FnBody(Builtin::Let))) {
            Ok(()) => {},
            Err(e) => {
                return Err(e);
            },
        }
        match self.load_builtin("if", ("a b c", FnBody(Builtin::If))) {
            Ok(()) => {},
            Err(e) => {
                return Err(e);
            },
        }
        match self.load_builtin("do", ("&", FnBody(Builtin::Do))) {
            Ok(()) => {},
            Err(e) => {
                return Err(e);
            },
        }
        match self.load_builtin("while", ("x & ys", FnBody(Builtin::While))) {
            Ok(()) => {},
            Err(e) => {
                return Err(e);
            },
        }
        match self.load_builtin("doseq", ("bindings & exprs", FnBody(Builtin::DoSeq))) {
            Ok(()) => {},
            Err(e) => {
                return Err(e);
            },
        }
        match self.load_builtin("dotimes", ("a b", FnBody(Builtin::DoTimes))) {
            Ok(()) => {},
            Err(e) => {
                return Err(e);
            },
        }
        match self.load_builtin("vector", ("&", FnBody(Builtin::NewVector))) {
            Ok(()) => {},
            Err(e) => {
                return Err(e);
            },
        }
        match self.load_builtin("nth", ("vec & args", FnBody(Builtin::Nth))) {
            Ok(()) => {},
            Err(e) => {
                return Err(e);
            },
        }
        match self.load_builtin("peek", ("vec", FnBody(Builtin::Peek))) {
            Ok(()) => {},
            Err(e) => {
                return Err(e);
            },
        }
        match self.load_builtin("pop", ("vec", FnBody(Builtin::Pop))) {
            Ok(()) => {},
            Err(e) => {
                return Err(e);
            },
        }
        match self.load_builtin("+", ("&", FnBody(Builtin::Add))) {
            Ok(()) => {},
            Err(e) => {
                return Err(e);
            },
        }
        match self.load_builtin("-", ("x & ys", FnBody(Builtin::Sub))) {
            Ok(()) => {},
            Err(e) => {
                return Err(e);
            },
        }
        match self.load_builtin("*", ("&", FnBody(Builtin::Mul))) {
            Ok(()) => {},
            Err(e) => {
                return Err(e);
            },
        }
        match self.load_builtin("/", ("x & ys", FnBody(Builtin::Div))) {
            Ok(()) => {},
            Err(e) => {
                return Err(e);
            },
        }
        match self.load_builtin("rem", ("a b", FnBody(Builtin::Rem))) {
            Ok(()) => {},
            Err(e) => {
                return Err(e);
            },
        }
        match self.load_builtin("inc", ("x", FnBody(Builtin::Inc))) {
            Ok(()) => {},
            Err(e) => {
                return Err(e);
            },
        }
        match self.load_builtin("dec", ("x", FnBody(Builtin::Dec))) {
            Ok(()) => {},
            Err(e) => {
                return Err(e);
            },
        }
        match self.load_builtin("max", ("x & ys", FnBody(Builtin::Max))) {
            Ok(()) => {},
            Err(e) => {
                return Err(e);
            },
        }
        match self.load_builtin("min", ("x & ys", FnBody(Builtin::Min))) {
            Ok(()) => {},
            Err(e) => {
                return Err(e);
            },
        }
        match self.load_builtin("==", ("x & ys", FnBody(Builtin::CmpEq))) {
            Ok(()) => {},
            Err(e) => {
                return Err(e);
            },
        }
        match self.load_builtin(">", ("x & ys", FnBody(Builtin::CmpGt))) {
            Ok(()) => {},
            Err(e) => {
                return Err(e);
            },
        }
        match self.load_builtin(">=", ("x & ys", FnBody(Builtin::CmpGe))) {
            Ok(()) => {},
            Err(e) => {
                return Err(e);
            },
        }
        match self.load_builtin("<", ("x & ys", FnBody(Builtin::CmpLt))) {
            Ok(()) => {},
            Err(e) => {
                return Err(e);
            },
        }
        match self.load_builtin("<=", ("x & ys", FnBody(Builtin::CmpLe))) {
            Ok(()) => {},
            Err(e) => {
                return Err(e);
            },
        }
        match self.load_builtin("and", ("&", FnBody(Builtin::BoolAnd))) {
            Ok(()) => {},
            Err(e) => {
                return Err(e);
            },
        }
        match self.load_builtin("or", ("&", FnBody(Builtin::BoolOr))) {
            Ok(()) => {},
            Err(e) => {
                return Err(e);
            },
        }
        match self.load_builtin("not", ("x", FnBody(Builtin::BoolNot))) {
            Ok(()) => {},
            Err(e) => {
                return Err(e);
            },
        }
        Ok(())
    }

    /// Evaluates one expression with the default recursion bound
    /// [`EVAL_FUEL`], returning, and leaving the environment, exactly as
    /// `spec_eval` says.
    pub fn eval(&mut self, expr: Expression) -> (r: Result<Expression, Error>)
        ensures
            ({
                let (e2, res) = spec_eval(old(self)@, expr@, EVAL_FUEL as nat);
                final(self)@ == e2 && res_view(r) == res
            }),
    {
        self.eval_inner(expr, EVAL_FUEL)
    }
}

} // verus!

verus! {

impl Environment {
    /// Parses one source string and evaluates the resulting form with the
    /// default recursion bound; a parse error leaves the environment
    /// untouched.
    pub fn parse_eval(&mut self, s: &str) -> (r: Result<Expression, Error>)
        ensures
            ({
                match spec_parse(s@) {
                    Err(e) => final(self)@ == old(self)@ && r == Err::<Expression, Error>(e),
                    Ok(se) => ({
                        let (e2, res) = spec_eval(old(self)@, se, EVAL_FUEL as nat);
                        final(self)@ == e2 && res_view(r) == res
                    }),
                }
            }),
    {
        match Expression::parse_text(s) {
            Err(e) => Err(e),
            Ok(expr) => self.eval_inner(expr, EVAL_FUEL),
        }
    }
}

} // verus!
