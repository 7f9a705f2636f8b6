use vstd::prelude::*;

use crate::environment::SpecEnv;
use crate::environment::SpecFrame;
use crate::environment::frame_find;
use crate::environment::frame_index_of;
use crate::environment::frame_store;
use crate::environment::lemma_frame_index_of;
use crate::error::Error;
use crate::expression::Builtin;
use crate::expression::SpecExpr;
use crate::parser::spec_parse;
use crate::semantics::spec_apply;
use crate::semantics::spec_bind;
use crate::semantics::spec_bind_named;
use crate::semantics::spec_eval;
use crate::semantics::spec_fold_add;
use crate::semantics::spec_fold_mul;
use crate::semantics::spec_fold_sub;
use crate::semantics::spec_pop_args;
use crate::semantics::spec_pop_x_ys;
use crate::semantics::spec_load_defaults;
use crate::semantics::spec_resolve;
use crate::semantics::spec_split_params;
use crate::semantics::split_words;
use crate::semantics::split_words_at;
use crate::semantics::char_index_of;
use crate::semantics::next_non_ws;
use crate::semantics::next_ws;

verus! {

// The laws below state, once and for all inputs, properties that the
// contracts of the evaluator imply; each is proved from the semantics
// alone.

/// A frame holding exactly the two-element aggregate of an all-arguments
/// builtin: what binding `(op a b)` under the spec `&` leaves on the stack.
pub open spec fn amp_frame(a: SpecExpr, b: SpecExpr) -> SpecFrame {
    seq![("&"@, SpecExpr::Vector(seq![a, b]))]
}

/// A frame holding one mandatory slot and a one-element rest aggregate:
/// what binding `(op a b)` under the spec `x & ys` leaves on the stack.
pub open spec fn x_ys_frame(a: SpecExpr, b: SpecExpr) -> SpecFrame {
    seq![("ys"@, SpecExpr::Vector(seq![b])), ("x"@, a)]
}

/// An environment whose newest frame is `f`.
pub open spec fn with_top_frame(env: SpecEnv, f: SpecFrame) -> SpecEnv {
    SpecEnv { stack: env.stack.push(f), ..env }
}

/// Law: the addition builtin applied to two numbers whose sum leaves the
/// 64-bit signed range reports `MathError`, never a wrapped value.
pub proof fn lemma_add_overflow(env: SpecEnv, a: i64, b: i64, fuel: nat)
    requires
        fuel >= 1,
        a + b > i64::MAX || a + b < i64::MIN,
    ensures
        spec_apply(Builtin::Add, with_top_frame(env, amp_frame(SpecExpr::Number(a), SpecExpr::Number(b))), fuel).1
            == Err::<SpecExpr, Error>(Error::MathError),
{
    let env1 = with_top_frame(env, amp_frame(SpecExpr::Number(a), SpecExpr::Number(b)));
    let (e2, popped) = spec_pop_args(env1);
    assert(popped == Ok::<Option<Seq<SpecExpr>>, Error>(
        Some(seq![SpecExpr::Number(a), SpecExpr::Number(b)]),
    ));
    let items = seq![SpecExpr::Number(a), SpecExpr::Number(b)];
    assert(spec_fold_add(e2, items, 0, 0, fuel).1 == Err::<SpecExpr, Error>(Error::MathError)) by {
        let (e3, r0) = spec_eval(e2, items[0], fuel);
        assert(e3 == e2 && r0 == Ok::<SpecExpr, Error>(SpecExpr::Number(a)));
        assert(spec_fold_add(e2, items, 1, a, fuel).1 == Err::<SpecExpr, Error>(
            Error::MathError,
        )) by {
            let (e4, r1) = spec_eval(e2, items[1], fuel);
            assert(e4 == e2 && r1 == Ok::<SpecExpr, Error>(SpecExpr::Number(b)));
            assert(a.checked_add(b) is None);
        }
    }
}

/// Law: the multiplication builtin applied to two numbers whose product
/// leaves the 64-bit signed range reports `MathError`, never a wrapped
/// value.
pub proof fn lemma_mul_overflow(env: SpecEnv, a: i64, b: i64, fuel: nat)
    requires
        fuel >= 1,
        a * b > i64::MAX || a * b < i64::MIN,
    ensures
        spec_apply(Builtin::Mul, with_top_frame(env, amp_frame(SpecExpr::Number(a), SpecExpr::Number(b))), fuel).1
            == Err::<SpecExpr, Error>(Error::MathError),
{
    let env1 = with_top_frame(env, amp_frame(SpecExpr::Number(a), SpecExpr::Number(b)));
    let (e2, popped) = spec_pop_args(env1);
    assert(popped == Ok::<Option<Seq<SpecExpr>>, Error>(
        Some(seq![SpecExpr::Number(a), SpecExpr::Number(b)]),
    ));
    let items = seq![SpecExpr::Number(a), SpecExpr::Number(b)];
    assert(spec_fold_mul(e2, items, 0, 1, fuel).1 == Err::<SpecExpr, Error>(Error::MathError)) by {
        let (e3, r0) = spec_eval(e2, items[0], fuel);
        assert(e3 == e2 && r0 == Ok::<SpecExpr, Error>(SpecExpr::Number(a)));
        assert((1 as i64).checked_mul(a) == Some(a));
        assert(spec_fold_mul(e2, items, 1, a, fuel).1 == Err::<SpecExpr, Error>(
            Error::MathError,
        )) by {
            let (e4, r1) = spec_eval(e2, items[1], fuel);
            assert(e4 == e2 && r1 == Ok::<SpecExpr, Error>(SpecExpr::Number(b)));
            assert(a.checked_mul(b) is None);
        }
    }
}

/// Law: the subtraction builtin applied to two numbers whose difference
/// leaves the 64-bit signed range reports `MathError`, never a wrapped
/// value.
pub proof fn lemma_sub_overflow(env: SpecEnv, a: i64, b: i64, fuel: nat)
    requires
        fuel >= 1,
        a - b > i64::MAX || a - b < i64::MIN,
    ensures
        spec_apply(Builtin::Sub, with_top_frame(env, x_ys_frame(SpecExpr::Number(a), SpecExpr::Number(b))), fuel).1
            == Err::<SpecExpr, Error>(Error::MathError),
{
    let env1 = with_top_frame(env, x_ys_frame(SpecExpr::Number(a), SpecExpr::Number(b)));
    let (e2, popped) = spec_pop_x_ys(env1);
    assert(popped == Ok::<(SpecExpr, Option<Seq<SpecExpr>>), Error>(
        (SpecExpr::Number(a), Some(seq![SpecExpr::Number(b)])),
    ));
    let items = seq![SpecExpr::Number(b)];
    assert(spec_fold_sub(e2, items, 0, a, fuel).1 == Err::<SpecExpr, Error>(Error::MathError)) by {
        let (e3, r0) = spec_eval(e2, items[0], fuel);
        assert(e3 == e2 && r0 == Ok::<SpecExpr, Error>(SpecExpr::Number(b)));
        assert(a.checked_sub(b) is None);
    }
}

/// Law: negating the minimum 64-bit number, dividing it by minus one, and
/// taking its remainder by minus one all report `MathError`; so does any
/// division or remainder by zero.
pub proof fn lemma_unary_and_division_overflow(env: SpecEnv, a: i64, fuel: nat)
    requires
        fuel >= 1,
    ensures
        spec_apply(Builtin::Div, with_top_frame(env, x_ys_frame(SpecExpr::Number(a), SpecExpr::Number(0))), fuel).1
            == Err::<SpecExpr, Error>(Error::MathError),
        spec_apply(Builtin::Rem, with_top_frame(env, seq![("b"@, SpecExpr::Number(0)), ("a"@, SpecExpr::Number(a))]), fuel).1
            == Err::<SpecExpr, Error>(Error::MathError),
        spec_apply(Builtin::Div, with_top_frame(env, x_ys_frame(SpecExpr::Number(i64::MIN), SpecExpr::Number(-1i64))), fuel).1
            == Err::<SpecExpr, Error>(Error::MathError),
        spec_apply(Builtin::Rem, with_top_frame(env, seq![("b"@, SpecExpr::Number(-1i64)), ("a"@, SpecExpr::Number(i64::MIN))]), fuel).1
            == Err::<SpecExpr, Error>(Error::MathError),
        spec_apply(Builtin::Inc, with_top_frame(env, seq![("x"@, SpecExpr::Number(i64::MAX))]), fuel).1
            == Err::<SpecExpr, Error>(Error::MathError),
        spec_apply(Builtin::Dec, with_top_frame(env, seq![("x"@, SpecExpr::Number(i64::MIN))]), fuel).1
            == Err::<SpecExpr, Error>(Error::MathError),
        spec_apply(Builtin::Sub, with_top_frame(env, seq![("x"@, SpecExpr::Number(i64::MIN))]), fuel).1
            == Err::<SpecExpr, Error>(Error::MathError),
{
    let d0 = with_top_frame(env, x_ys_frame(SpecExpr::Number(a), SpecExpr::Number(0)));
    let (e2, popped) = spec_pop_x_ys(d0);
    assert(popped == Ok::<(SpecExpr, Option<Seq<SpecExpr>>), Error>(
        (SpecExpr::Number(a), Some(seq![SpecExpr::Number(0)])),
    ));
    let items0 = seq![SpecExpr::Number(0)];
    let (e3, r0) = spec_eval(e2, items0[0], fuel);
    assert(e3 == e2 && r0 == Ok::<SpecExpr, Error>(SpecExpr::Number(0)));
    assert(a.checked_div(0) is None);

    let dm = with_top_frame(env, x_ys_frame(SpecExpr::Number(i64::MIN), SpecExpr::Number(-1i64)));
    let (f2, mpopped) = spec_pop_x_ys(dm);
    assert(mpopped == Ok::<(SpecExpr, Option<Seq<SpecExpr>>), Error>(
        (SpecExpr::Number(i64::MIN), Some(seq![SpecExpr::Number(-1i64)])),
    ));
    let itemsm = seq![SpecExpr::Number(-1i64)];
    let (f3, rm) = spec_eval(f2, itemsm[0], fuel);
    assert(f3 == f2 && rm == Ok::<SpecExpr, Error>(SpecExpr::Number(-1 as i64)));
    assert(i64::MIN.checked_div(-1i64) is None);
}

/// Law: binding a call of a function declared `a b & ys`.
///
/// With exactly two arguments `a` and `b` bind and no positional slot is
/// created; with two plus `k` arguments, the extra `k` bind as one vector
/// under `ys`, holding them in reverse call order, so that a consumer that
/// reverses the vector recovers the original left-to-right call order.
pub proof fn lemma_binding_two_named_one_positional(env: SpecEnv, items: Seq<SpecExpr>)
    requires
        env.stack.len() > 0,
        env.stack.last() =~= Seq::<(Seq<char>, SpecExpr)>::empty(),
        items.len() >= 3,
    ensures
        spec_bind(env, "a b & ys"@, items).1 == Ok::<(), Error>(()),
        items.len() == 3 ==> spec_bind(env, "a b & ys"@, items).0.stack.last() =~= seq![
            ("b"@, items[2]),
            ("a"@, items[1]),
        ],
        items.len() > 3 ==> spec_bind(env, "a b & ys"@, items).0.stack.last() =~= seq![
            ("ys"@, SpecExpr::Vector(items.subrange(3, items.len() as int).reverse())),
            ("b"@, items[2]),
            ("a"@, items[1]),
        ],
        items.len() > 3 ==> items.subrange(3, items.len() as int).reverse().reverse()
            =~= items.subrange(3, items.len() as int),
{
    lemma_split_a_b_ys();
    let named = seq!["a"@, "b"@];
    reveal_strlit("a");
    reveal_strlit("b");
    reveal_strlit("ys");
    reveal_strlit("&");
    assert(('a' as u32) != ('b' as u32) && ('a' as u32) != ('y' as u32) && ('b' as u32) != (
        'y' as u32
    ));
    assert("a"@.len() == 1 && "b"@.len() == 1 && "ys"@.len() == 2);
    assert("a"@[0] == 'a' && "b"@[0] == 'b');
    assert("a"@ != "b"@);
    assert("a"@ != "ys"@);
    assert("b"@ != "ys"@);
    assert(named.drop_last() =~= seq!["a"@]);
    assert(named.drop_last().drop_last() =~= Seq::<Seq<char>>::empty());
    if items.len() > 3 {
        let pos_args = items.subrange(3, items.len() as int).reverse();
        let env1 = env.push_stack("ys"@, SpecExpr::Vector(pos_args));
        lemma_store_absent(env.stack.last(), "ys"@, SpecExpr::Vector(pos_args));
        let f1 = seq![("ys"@, SpecExpr::Vector(pos_args))];
        assert(env1.stack.last() =~= f1);
        let rest = items.subrange(0, 3);
        let env2 = env1.push_stack("b"@, rest.last());
        lemma_store_absent(f1, "b"@, rest.last());
        let f2 = seq![("ys"@, SpecExpr::Vector(pos_args)), ("b"@, items[2])];
        assert(f1.push(("b"@, items[2])) =~= f2);
        assert(env2.stack.last() =~= f2);
        let rest2 = rest.drop_last();
        let env3 = env2.push_stack("a"@, rest2.last());
        lemma_store_absent(f2, "a"@, rest2.last());
        let f3 = seq![
            ("ys"@, SpecExpr::Vector(pos_args)),
            ("b"@, items[2]),
            ("a"@, items[1]),
        ];
        assert(f2.push(("a"@, items[1])) =~= f3);
        assert(env3.stack.last() =~= f3);
        assert(rest2.drop_last().len() == 1);
        assert(spec_bind_named(env3, named.drop_last().drop_last(), rest2.drop_last()) == (
            env3,
            Ok::<(), Error>(()),
        ));
        assert(spec_bind_named(env2, named.drop_last(), rest2) == (env3, Ok::<(), Error>(())));
        assert(spec_bind_named(env1, named, rest) == (env3, Ok::<(), Error>(())));
        assert(spec_bind(env, "a b & ys"@, items) == (env3, Ok::<(), Error>(())));
    } else {
        let rest = items;
        let env2 = env.push_stack("b"@, rest.last());
        lemma_store_absent(env.stack.last(), "b"@, rest.last());
        let f2 = seq![("b"@, items[2])];
        assert(env2.stack.last() =~= f2);
        let rest2 = rest.drop_last();
        let env3 = env2.push_stack("a"@, rest2.last());
        lemma_store_absent(f2, "a"@, rest2.last());
        let f3 = seq![("b"@, items[2]), ("a"@, items[1])];
        assert(f2.push(("a"@, items[1])) =~= f3);
        assert(env3.stack.last() =~= f3);
        assert(rest2.drop_last().len() == 1);
        assert(spec_bind_named(env3, named.drop_last().drop_last(), rest2.drop_last()) == (
            env3,
            Ok::<(), Error>(()),
        ));
        assert(spec_bind_named(env2, named.drop_last(), rest2) == (env3, Ok::<(), Error>(())));
        assert(spec_bind_named(env, named, rest) == (env3, Ok::<(), Error>(())));
        assert(spec_bind(env, "a b & ys"@, items) == (env3, Ok::<(), Error>(())));
    }
}

/// Storing a name that a frame does not hold appends the binding.
pub proof fn lemma_store_absent(f: SpecFrame, name: Seq<char>, val: SpecExpr)
    requires
        forall|k: int| 0 <= k < f.len() ==> (#[trigger] f[k]).0 != name,
    ensures
        frame_store(f, name, val) == f.push((name, val)),
{
    lemma_frame_index_of(f, name, 0);
}

/// The parameter spec `a b & ys` splits into the named words `a`, `b` and
/// the single positional word `ys`.
pub proof fn lemma_split_a_b_ys()
    ensures
        spec_split_params("a b & ys"@) == (seq!["a"@, "b"@], Some(seq!["ys"@])),
{
    reveal_strlit("a b & ys");
    reveal_strlit("a");
    reveal_strlit("b");
    reveal_strlit("ys");
    let p = "a b & ys"@;
    assert(char_index_of(p, '&', 0) == Some(4int)) by {
        assert(char_index_of(p, '&', 4) == Some(4int));
        assert(char_index_of(p, '&', 3) == Some(4int));
        assert(char_index_of(p, '&', 2) == Some(4int));
        assert(char_index_of(p, '&', 1) == Some(4int));
    }
    let before = p.subrange(0, 4);
    let after = p.subrange(5, 8);
    assert(split_words(before) =~~= seq!["a"@, "b"@]) by {
        assert(next_non_ws(before, 0) == 0);
        assert(next_ws(before, 1) == 1);
        assert(next_ws(before, 0) == 1);
        assert(next_non_ws(before, 1) == 2) by {
            assert(next_non_ws(before, 2) == 2);
        }
        assert(next_ws(before, 2) == 3) by {
            assert(next_ws(before, 3) == 3);
        }
        assert(next_non_ws(before, 3) == 4) by {
            assert(next_non_ws(before, 4) == 4);
        }
        assert(split_words_at(before, 3) =~~= Seq::<Seq<char>>::empty());
        assert(split_words_at(before, 1) =~~= seq![before.subrange(2, 3)]);
        assert(before.subrange(0, 1) =~= "a"@);
        assert(before.subrange(2, 3) =~= "b"@);
        assert(split_words_at(before, 0) =~~= seq![before.subrange(0, 1)] + split_words_at(
            before,
            1,
        ));
    }
    assert(split_words(after) =~~= seq!["ys"@]) by {
        assert(next_non_ws(after, 0) == 1) by {
            assert(next_non_ws(after, 1) == 1);
        }
        assert(next_ws(after, 1) == 3) by {
            assert(next_ws(after, 3) == 3);
            assert(next_ws(after, 2) == 3);
        }
        assert(next_non_ws(after, 3) == 3);
        assert(split_words_at(after, 3) =~~= Seq::<Seq<char>>::empty());
        assert(after.subrange(1, 3) =~= "ys"@);
        assert(split_words_at(after, 0) =~~= seq![after.subrange(1, 3)] + split_words_at(
            after,
            3,
        ));
    }
}

/// Law: `define_var` writes into the global frame and nowhere else,
/// whatever the call depth: the global frame takes the stored binding,
/// every other frame and the builtin table stay word-for-word the same.
pub proof fn lemma_define_var_targets_global(env: SpecEnv, name: Seq<char>, val: SpecExpr)
    requires
        env.stack.len() > 0,
    ensures
        ({
            let e2 = env.define_var(name, val);
            &&& e2.stack.len() == env.stack.len()
            &&& e2.stack[0] == frame_store(env.stack[0], name, val)
            &&& forall|j: int| 1 <= j < env.stack.len() ==> e2.stack[j] == env.stack[j]
            &&& e2.builtins == env.builtins
        }),
{
}

/// Law: after a binding is stored in a frame, looking the name up in that
/// frame finds exactly the stored value.
pub proof fn lemma_store_then_find(f: SpecFrame, name: Seq<char>, val: SpecExpr)
    ensures
        frame_find(frame_store(f, name, val), name) == Some(val),
{
    lemma_frame_index_of(f, name, 0);
    match frame_index_of(f, name, 0) {
        Some(i) => {
            lemma_index_of_update(f, name, val, i, 0);
        },
        None => {
            lemma_index_of_push(f, name, val, 0);
        },
    }
}

/// Overwriting the first binding of a name leaves it the first binding.
proof fn lemma_index_of_update(f: SpecFrame, name: Seq<char>, val: SpecExpr, i: int, j: int)
    requires
        0 <= j <= i < f.len(),
        frame_index_of(f, name, j) == Some(i),
    ensures
        frame_index_of(f.update(i, (name, val)), name, j) == Some(i),
    decreases i - j,
{
    let f2 = f.update(i, (name, val));
    if j == i {
        assert(f2[i].0 == name);
    } else {
        assert(f[j].0 != name);
        assert(f2[j].0 != name);
        lemma_index_of_update(f, name, val, i, j + 1);
    }
}

/// Appending a binding of an absent name makes it the first binding.
proof fn lemma_index_of_push(f: SpecFrame, name: Seq<char>, val: SpecExpr, j: int)
    requires
        0 <= j <= f.len(),
        frame_index_of(f, name, j) is None,
    ensures
        frame_index_of(f.push((name, val)), name, j) == Some(f.len() as int),
    decreases f.len() - j,
{
    let f2 = f.push((name, val));
    if j == f.len() {
        assert(f2[j].0 == name);
    } else {
        assert(f[j].0 != name);
        assert(f2[j].0 != name);
        lemma_index_of_push(f, name, val, j + 1);
    }
}

} // verus!

verus! {

/// The parameter spec `&` splits into no named words and an empty
/// positional section.
pub proof fn lemma_split_amp()
    ensures
        spec_split_params("&"@) == (Seq::<Seq<char>>::empty(), Some(Seq::<Seq<char>>::empty())),
{
    reveal_strlit("&");
    let p = "&"@;
    assert(char_index_of(p, '&', 0) == Some(0int));
    let before = p.subrange(0, 0);
    let after = p.subrange(1, 1);
    assert(before.len() == 0 && after.len() == 0);
    assert(next_non_ws(before, 0) == 0);
    assert(split_words_at(before, 0) =~~= Seq::<Seq<char>>::empty());
    assert(next_non_ws(after, 0) == 0);
    assert(split_words_at(after, 0) =~~= Seq::<Seq<char>>::empty());
}

/// The parameter spec `x & ys` splits into the named word `x` and the
/// single positional word `ys`.
pub proof fn lemma_split_x_ys()
    ensures
        spec_split_params("x & ys"@) == (seq!["x"@], Some(seq!["ys"@])),
{
    reveal_strlit("x & ys");
    reveal_strlit("x");
    reveal_strlit("ys");
    let p = "x & ys"@;
    assert(char_index_of(p, '&', 0) == Some(2int)) by {
        assert(char_index_of(p, '&', 2) == Some(2int));
        assert(char_index_of(p, '&', 1) == Some(2int));
    }
    let before = p.subrange(0, 2);
    let after = p.subrange(3, 6);
    assert(split_words(before) =~~= seq!["x"@]) by {
        assert(next_non_ws(before, 0) == 0);
        assert(next_ws(before, 1) == 1);
        assert(next_ws(before, 0) == 1);
        assert(next_non_ws(before, 1) == 2) by {
            assert(next_non_ws(before, 2) == 2);
        }
        assert(split_words_at(before, 1) =~~= Seq::<Seq<char>>::empty());
        assert(before.subrange(0, 1) =~= "x"@);
        assert(split_words_at(before, 0) =~~= seq![before.subrange(0, 1)] + split_words_at(
            before,
            1,
        ));
    }
    assert(split_words(after) =~~= seq!["ys"@]) by {
        assert(next_non_ws(after, 0) == 1) by {
            assert(next_non_ws(after, 1) == 1);
        }
        assert(next_ws(after, 1) == 3) by {
            assert(next_ws(after, 3) == 3);
            assert(next_ws(after, 2) == 3);
        }
        assert(next_non_ws(after, 3) == 3);
        assert(split_words_at(after, 3) =~~= Seq::<Seq<char>>::empty());
        assert(after.subrange(1, 3) =~= "ys"@);
        assert(split_words_at(after, 0) =~~= seq![after.subrange(1, 3)] + split_words_at(
            after,
            3,
        ));
    }
}

/// The parameter spec `a b` splits into the named words `a`, `b` and no
/// positional section.
pub proof fn lemma_split_a_b()
    ensures
        spec_split_params("a b"@) == (seq!["a"@, "b"@], None::<Seq<Seq<char>>>),
{
    reveal_strlit("a b");
    reveal_strlit("a");
    reveal_strlit("b");
    let p = "a b"@;
    assert(('&' as u32) == 38);
    assert(char_index_of(p, '&', 0) is None) by {
        assert(char_index_of(p, '&', 3) is None);
        assert(char_index_of(p, '&', 2) is None);
        assert(char_index_of(p, '&', 1) is None);
    }
    assert(split_words(p) =~~= seq!["a"@, "b"@]) by {
        assert(next_non_ws(p, 0) == 0);
        assert(next_ws(p, 1) == 1);
        assert(next_ws(p, 0) == 1);
        assert(next_non_ws(p, 1) == 2) by {
            assert(next_non_ws(p, 2) == 2);
        }
        assert(next_ws(p, 2) == 3) by {
            assert(next_ws(p, 3) == 3);
        }
        assert(next_non_ws(p, 3) == 3);
        assert(split_words_at(p, 3) =~~= Seq::<Seq<char>>::empty());
        assert(p.subrange(0, 1) =~= "a"@);
        assert(p.subrange(2, 3) =~= "b"@);
        assert(split_words_at(p, 1) =~~= seq![p.subrange(2, 3)] + split_words_at(p, 3));
        assert(split_words_at(p, 0) =~~= seq![p.subrange(0, 1)] + split_words_at(p, 1));
    }
}

/// Binding a two-argument call under the spec `&` gathers both arguments,
/// in reverse call order, into one vector under the slot `&`.
pub proof fn lemma_bind_call2_amp(env: SpecEnv, items: Seq<SpecExpr>)
    requires
        env.stack.len() > 0,
        env.stack.last() =~= Seq::<(Seq<char>, SpecExpr)>::empty(),
        items.len() == 3,
    ensures
        spec_bind(env, "&"@, items).1 == Ok::<(), Error>(()),
        spec_bind(env, "&"@, items).0.builtins == env.builtins,
        spec_bind(env, "&"@, items).0.stack =~= env.stack.update(
            env.stack.len() - 1,
            seq![("&"@, SpecExpr::Vector(seq![items[2], items[1]]))],
        ),
{
    lemma_split_amp();
    reveal_strlit("&");
    let pos_args = items.subrange(1, 3).reverse();
    assert(pos_args =~= seq![items[2], items[1]]);
    let env1 = env.push_stack("&"@, SpecExpr::Vector(pos_args));
    lemma_store_absent(env.stack.last(), "&"@, SpecExpr::Vector(pos_args));
    assert(env1.stack.last() =~= seq![("&"@, SpecExpr::Vector(pos_args))]);
    let rest = items.subrange(0, 1);
    assert(rest.len() == 1);
    assert(spec_bind_named(env1, Seq::<Seq<char>>::empty(), rest) == (env1, Ok::<(), Error>(())));
}

/// Binding a two-argument call under the spec `x & ys` binds the first
/// argument under `x` and the second, alone in a vector, under `ys`.
pub proof fn lemma_bind_call2_x_ys(env: SpecEnv, items: Seq<SpecExpr>)
    requires
        env.stack.len() > 0,
        env.stack.last() =~= Seq::<(Seq<char>, SpecExpr)>::empty(),
        items.len() == 3,
    ensures
        spec_bind(env, "x & ys"@, items).1 == Ok::<(), Error>(()),
        spec_bind(env, "x & ys"@, items).0.builtins == env.builtins,
        spec_bind(env, "x & ys"@, items).0.stack =~= env.stack.update(
            env.stack.len() - 1,
            x_ys_frame(items[1], items[2]),
        ),
{
    lemma_split_x_ys();
    reveal_strlit("x");
    reveal_strlit("ys");
    assert("x"@.len() == 1 && "ys"@.len() == 2);
    assert("x"@ != "ys"@);
    let named = seq!["x"@];
    let pos_args = items.subrange(2, 3).reverse();
    assert(pos_args =~= seq![items[2]]);
    let env1 = env.push_stack("ys"@, SpecExpr::Vector(pos_args));
    lemma_store_absent(env.stack.last(), "ys"@, SpecExpr::Vector(pos_args));
    let f1 = seq![("ys"@, SpecExpr::Vector(pos_args))];
    assert(env1.stack.last() =~= f1);
    let rest = items.subrange(0, 2);
    let env2 = env1.push_stack("x"@, rest.last());
    lemma_store_absent(f1, "x"@, rest.last());
    assert(env2.stack.last() =~= f1.push(("x"@, items[1])));
    assert(f1.push(("x"@, items[1])) =~= x_ys_frame(items[1], items[2]));
    assert(named.drop_last() =~= Seq::<Seq<char>>::empty());
    assert(rest.drop_last().len() == 1);
    assert(spec_bind_named(env2, named.drop_last(), rest.drop_last()) == (
        env2,
        Ok::<(), Error>(()),
    ));
    assert(spec_bind_named(env1, named, rest) == (env2, Ok::<(), Error>(())));
}

/// Binding a two-argument call under the spec `a b` binds the arguments
/// under `a` and `b`, the later-declared name pushed first.
pub proof fn lemma_bind_call2_a_b(env: SpecEnv, items: Seq<SpecExpr>)
    requires
        env.stack.len() > 0,
        env.stack.last() =~= Seq::<(Seq<char>, SpecExpr)>::empty(),
        items.len() == 3,
    ensures
        spec_bind(env, "a b"@, items).1 == Ok::<(), Error>(()),
        spec_bind(env, "a b"@, items).0.builtins == env.builtins,
        spec_bind(env, "a b"@, items).0.stack =~= env.stack.update(
            env.stack.len() - 1,
            seq![("b"@, items[2]), ("a"@, items[1])],
        ),
{
    lemma_split_a_b();
    reveal_strlit("a");
    reveal_strlit("b");
    assert("a"@.len() == 1 && "b"@.len() == 1);
    assert("a"@[0] == 'a' && "b"@[0] == 'b');
    assert(('a' as u32) != ('b' as u32));
    assert("a"@ != "b"@);
    let named = seq!["a"@, "b"@];
    let env1 = env.push_stack("b"@, items.last());
    lemma_store_absent(env.stack.last(), "b"@, items.last());
    let f1 = seq![("b"@, items[2])];
    assert(env1.stack.last() =~= f1);
    let rest = items.drop_last();
    let env2 = env1.push_stack("a"@, rest.last());
    lemma_store_absent(f1, "a"@, rest.last());
    assert(env2.stack.last() =~= f1.push(("a"@, items[1])));
    assert(f1.push(("a"@, items[1])) =~= seq![("b"@, items[2]), ("a"@, items[1])]);
    assert(named.drop_last() =~= seq!["a"@]);
    assert(named.drop_last().drop_last() =~= Seq::<Seq<char>>::empty());
    assert(rest.drop_last().len() == 1);
    assert(spec_bind_named(env2, named.drop_last().drop_last(), rest.drop_last()) == (
        env2,
        Ok::<(), Error>(()),
    ));
    assert(spec_bind_named(env1, named.drop_last(), rest) == (env2, Ok::<(), Error>(())));
    assert(spec_bind_named(env, named, items) == (env2, Ok::<(), Error>(())));
}

/// What a call form whose head resolves through the builtin table
/// evaluates to: the result of binding in a fresh frame and running the
/// body, the frame dropped again afterwards.
pub proof fn lemma_eval_call(
    env: SpecEnv,
    opname: Seq<char>,
    params: Seq<char>,
    tag: Builtin,
    items: Seq<SpecExpr>,
    fuel: nat,
)
    requires
        fuel >= 1,
        items.len() > 0,
        items[0] == SpecExpr::Symbol(opname),
        env.find_builtin(opname) == Some(SpecExpr::Function(params, tag)),
    ensures
        spec_eval(env, SpecExpr::List(items), fuel).1 == ({
            let (env2, bres) = spec_bind(env.push_frame(), params, items);
            match bres {
                Err(er) => Err::<SpecExpr, Error>(er),
                Ok(()) => spec_apply(tag, env2, (fuel - 1) as nat).1,
            }
        }),
{
    let env1 = env.push_frame();
    assert(env1.find_builtin(opname) == env.find_builtin(opname));
    assert(spec_resolve(env1, opname) == Ok::<(Seq<char>, Builtin), Error>((params, tag)));
}

} // verus!

verus! {

/// Law: evaluating a call of `+` on two number literals whose sum leaves
/// the 64-bit range reports `MathError`, never a wrapped value, in every
/// environment that resolves `+` as the default set does.
pub proof fn lemma_eval_add_overflow(env: SpecEnv, a: i64, b: i64, fuel: nat)
    requires
        fuel >= 2,
        a + b > i64::MAX || a + b < i64::MIN,
        env.find_builtin("+"@) == Some(SpecExpr::Function("&"@, Builtin::Add)),
    ensures
        spec_eval(
            env,
            SpecExpr::List(
                seq![SpecExpr::Symbol("+"@), SpecExpr::Number(a), SpecExpr::Number(b)],
            ),
            fuel,
        ).1 == Err::<SpecExpr, Error>(Error::MathError),
{
    let items = seq![SpecExpr::Symbol("+"@), SpecExpr::Number(a), SpecExpr::Number(b)];
    lemma_eval_call(env, "+"@, "&"@, Builtin::Add, items, fuel);
    let env1 = env.push_frame();
    assert(env1.stack.last() =~= Seq::<(Seq<char>, SpecExpr)>::empty());
    lemma_bind_call2_amp(env1, items);
    let (env2, bres) = spec_bind(env1, "&"@, items);
    assert(env2 =~~= with_top_frame(env, amp_frame(SpecExpr::Number(b), SpecExpr::Number(a))))
        by {
        assert(env2.stack =~~= env.stack.push(
            seq![("&"@, SpecExpr::Vector(seq![SpecExpr::Number(b), SpecExpr::Number(a)]))],
        ));
    }
    lemma_add_overflow(env, b, a, (fuel - 1) as nat);
}

/// Law: evaluating a call of `-` on two number literals whose difference
/// leaves the 64-bit range reports `MathError`, never a wrapped value, in
/// every environment that resolves `-` as the default set does.
pub proof fn lemma_eval_sub_overflow(env: SpecEnv, a: i64, b: i64, fuel: nat)
    requires
        fuel >= 2,
        a - b > i64::MAX || a - b < i64::MIN,
        env.find_builtin("-"@) == Some(SpecExpr::Function("x & ys"@, Builtin::Sub)),
    ensures
        spec_eval(
            env,
            SpecExpr::List(
                seq![SpecExpr::Symbol("-"@), SpecExpr::Number(a), SpecExpr::Number(b)],
            ),
            fuel,
        ).1 == Err::<SpecExpr, Error>(Error::MathError),
{
    let items = seq![SpecExpr::Symbol("-"@), SpecExpr::Number(a), SpecExpr::Number(b)];
    lemma_eval_call(env, "-"@, "x & ys"@, Builtin::Sub, items, fuel);
    let env1 = env.push_frame();
    assert(env1.stack.last() =~= Seq::<(Seq<char>, SpecExpr)>::empty());
    lemma_bind_call2_x_ys(env1, items);
    let (env2, bres) = spec_bind(env1, "x & ys"@, items);
    assert(env2 =~~= with_top_frame(env, x_ys_frame(SpecExpr::Number(a), SpecExpr::Number(b))))
        by {
        assert(env2.stack =~~= env.stack.push(
            x_ys_frame(SpecExpr::Number(a), SpecExpr::Number(b)),
        ));
    }
    lemma_sub_overflow(env, a, b, (fuel - 1) as nat);
}

/// Law: evaluating a call of `*` on two number literals whose product
/// leaves the 64-bit range reports `MathError`, never a wrapped value, in
/// every environment that resolves `*` as the default set does.
pub proof fn lemma_eval_mul_overflow(env: SpecEnv, a: i64, b: i64, fuel: nat)
    requires
        fuel >= 2,
        a * b > i64::MAX || a * b < i64::MIN,
        env.find_builtin("*"@) == Some(SpecExpr::Function("&"@, Builtin::Mul)),
    ensures
        spec_eval(
            env,
            SpecExpr::List(
                seq![SpecExpr::Symbol("*"@), SpecExpr::Number(a), SpecExpr::Number(b)],
            ),
            fuel,
        ).1 == Err::<SpecExpr, Error>(Error::MathError),
{
    let items = seq![SpecExpr::Symbol("*"@), SpecExpr::Number(a), SpecExpr::Number(b)];
    lemma_eval_call(env, "*"@, "&"@, Builtin::Mul, items, fuel);
    let env1 = env.push_frame();
    assert(env1.stack.last() =~= Seq::<(Seq<char>, SpecExpr)>::empty());
    lemma_bind_call2_amp(env1, items);
    let (env2, bres) = spec_bind(env1, "&"@, items);
    assert(env2 =~~= with_top_frame(env, amp_frame(SpecExpr::Number(b), SpecExpr::Number(a))))
        by {
        assert(env2.stack =~~= env.stack.push(
            seq![("&"@, SpecExpr::Vector(seq![SpecExpr::Number(b), SpecExpr::Number(a)]))],
        ));
    }
    assert(a * b == b * a) by (nonlinear_arith);
    lemma_mul_overflow(env, b, a, (fuel - 1) as nat);
}

/// Law: evaluating a call of `/` on two number literals with a zero
/// divisor, or on the minimum number and minus one, reports `MathError`,
/// in every environment that resolves `/` as the default set does.
pub proof fn lemma_eval_div_overflow(env: SpecEnv, a: i64, b: i64, fuel: nat)
    requires
        fuel >= 2,
        b == 0 || (a == i64::MIN && b == -1),
        env.find_builtin("/"@) == Some(SpecExpr::Function("x & ys"@, Builtin::Div)),
    ensures
        spec_eval(
            env,
            SpecExpr::List(
                seq![SpecExpr::Symbol("/"@), SpecExpr::Number(a), SpecExpr::Number(b)],
            ),
            fuel,
        ).1 == Err::<SpecExpr, Error>(Error::MathError),
{
    let items = seq![SpecExpr::Symbol("/"@), SpecExpr::Number(a), SpecExpr::Number(b)];
    lemma_eval_call(env, "/"@, "x & ys"@, Builtin::Div, items, fuel);
    let env1 = env.push_frame();
    assert(env1.stack.last() =~= Seq::<(Seq<char>, SpecExpr)>::empty());
    lemma_bind_call2_x_ys(env1, items);
    let (env2, bres) = spec_bind(env1, "x & ys"@, items);
    let fr = x_ys_frame(SpecExpr::Number(a), SpecExpr::Number(b));
    assert(env2 =~~= with_top_frame(env, fr)) by {
        assert(env2.stack =~~= env.stack.push(fr));
    }
    let d0 = with_top_frame(env, fr);
    let f1 = (fuel - 1) as nat;
    let (e2, popped) = spec_pop_x_ys(d0);
    assert(popped == Ok::<(SpecExpr, Option<Seq<SpecExpr>>), Error>(
        (SpecExpr::Number(a), Some(seq![SpecExpr::Number(b)])),
    ));
    let ys = seq![SpecExpr::Number(b)];
    let (e3, rx) = spec_eval(e2, SpecExpr::Number(a), f1);
    assert(e3 == e2 && rx == Ok::<SpecExpr, Error>(SpecExpr::Number(a)));
    let (e4, ry) = spec_eval(e2, ys[0], f1);
    assert(e4 == e2 && ry == Ok::<SpecExpr, Error>(SpecExpr::Number(b)));
    assert(a.checked_div(b) is None);
}

/// Law: evaluating a call of `rem` on two number literals with a zero
/// divisor, or on the minimum number and minus one, reports `MathError`,
/// in every environment that resolves `rem` as the default set does.
pub proof fn lemma_eval_rem_overflow(env: SpecEnv, a: i64, b: i64, fuel: nat)
    requires
        fuel >= 2,
        b == 0 || (a == i64::MIN && b == -1),
        env.find_builtin("rem"@) == Some(SpecExpr::Function("a b"@, Builtin::Rem)),
    ensures
        spec_eval(
            env,
            SpecExpr::List(
                seq![SpecExpr::Symbol("rem"@), SpecExpr::Number(a), SpecExpr::Number(b)],
            ),
            fuel,
        ).1 == Err::<SpecExpr, Error>(Error::MathError),
{
    let items = seq![SpecExpr::Symbol("rem"@), SpecExpr::Number(a), SpecExpr::Number(b)];
    lemma_eval_call(env, "rem"@, "a b"@, Builtin::Rem, items, fuel);
    let env1 = env.push_frame();
    assert(env1.stack.last() =~= Seq::<(Seq<char>, SpecExpr)>::empty());
    lemma_bind_call2_a_b(env1, items);
    let (env2, bres) = spec_bind(env1, "a b"@, items);
    let fr = seq![("b"@, SpecExpr::Number(b)), ("a"@, SpecExpr::Number(a))];
    assert(env2 =~~= with_top_frame(env, fr)) by {
        assert(env2.stack =~~= env.stack.push(fr));
    }
    let d0 = with_top_frame(env, fr);
    let f1 = (fuel - 1) as nat;
    let (e2, ra) = d0.pop_stack_if_named("a"@);
    assert(ra == Ok::<SpecExpr, Error>(SpecExpr::Number(a)));
    assert(e2.stack.last() =~= seq![("b"@, SpecExpr::Number(b))]);
    let (e3, rb) = e2.pop_stack_if_named("b"@);
    assert(rb == Ok::<SpecExpr, Error>(SpecExpr::Number(b)));
    let (e4, rn) = spec_eval(e3, SpecExpr::Number(a), f1);
    assert(e4 == e3 && rn == Ok::<SpecExpr, Error>(SpecExpr::Number(a)));
    let (e5, rd) = spec_eval(e3, SpecExpr::Number(b), f1);
    assert(e5 == e3 && rd == Ok::<SpecExpr, Error>(SpecExpr::Number(b)));
    assert(a.checked_rem(b) is None);
}

/// Law: arithmetic overflow through the whole entry point. Any source
/// text that parses to the application of `+`, `-` or `*` to two number
/// literals whose mathematical result leaves the 64-bit range — and any
/// that parses to `/` or `rem` on a zero divisor or on the minimum number
/// and minus one — evaluates to `MathError` and never to a wrapped
/// number. `parse_eval` parses the text and then evaluates exactly this
/// form, so its result on such a source is `Err(MathError)`. The
/// resolution hypothesis holds of every environment the default set was
/// loaded into: see `lemma_defaults_resolve`.
pub proof fn lemma_parse_eval_overflow(
    env: SpecEnv,
    s: Seq<char>,
    op: Builtin,
    a: i64,
    b: i64,
    fuel: nat,
)
    requires
        fuel >= 2,
        match op {
            Builtin::Add => (a + b > i64::MAX || a + b < i64::MIN) && spec_parse(s)
                == Ok::<SpecExpr, Error>(
                SpecExpr::List(
                    seq![SpecExpr::Symbol("+"@), SpecExpr::Number(a), SpecExpr::Number(b)],
                ),
            ) && env.find_builtin("+"@) == Some(SpecExpr::Function("&"@, Builtin::Add)),
            Builtin::Sub => (a - b > i64::MAX || a - b < i64::MIN) && spec_parse(s)
                == Ok::<SpecExpr, Error>(
                SpecExpr::List(
                    seq![SpecExpr::Symbol("-"@), SpecExpr::Number(a), SpecExpr::Number(b)],
                ),
            ) && env.find_builtin("-"@) == Some(SpecExpr::Function("x & ys"@, Builtin::Sub)),
            Builtin::Mul => (a * b > i64::MAX || a * b < i64::MIN) && spec_parse(s)
                == Ok::<SpecExpr, Error>(
                SpecExpr::List(
                    seq![SpecExpr::Symbol("*"@), SpecExpr::Number(a), SpecExpr::Number(b)],
                ),
            ) && env.find_builtin("*"@) == Some(SpecExpr::Function("&"@, Builtin::Mul)),
            Builtin::Div => (b == 0 || (a == i64::MIN && b == -1)) && spec_parse(s)
                == Ok::<SpecExpr, Error>(
                SpecExpr::List(
                    seq![SpecExpr::Symbol("/"@), SpecExpr::Number(a), SpecExpr::Number(b)],
                ),
            ) && env.find_builtin("/"@) == Some(SpecExpr::Function("x & ys"@, Builtin::Div)),
            Builtin::Rem => (b == 0 || (a == i64::MIN && b == -1)) && spec_parse(s)
                == Ok::<SpecExpr, Error>(
                SpecExpr::List(
                    seq![SpecExpr::Symbol("rem"@), SpecExpr::Number(a), SpecExpr::Number(b)],
                ),
            ) && env.find_builtin("rem"@) == Some(SpecExpr::Function("a b"@, Builtin::Rem)),
            _ => false,
        },
    ensures
        spec_parse(s) matches Ok(se) && spec_eval(env, se, fuel).1 == Err::<SpecExpr, Error>(
            Error::MathError,
        ),
{
    match op {
        Builtin::Add => lemma_eval_add_overflow(env, a, b, fuel),
        Builtin::Sub => lemma_eval_sub_overflow(env, a, b, fuel),
        Builtin::Mul => lemma_eval_mul_overflow(env, a, b, fuel),
        Builtin::Div => lemma_eval_div_overflow(env, a, b, fuel),
        Builtin::Rem => lemma_eval_rem_overflow(env, a, b, fuel),
        _ => {},
    }
}

} // verus!

verus! {

/// After the default set loads into an environment that held no builtin,
/// the arithmetic names resolve to their builtin bodies with their
/// declared parameter specs.
#[verifier::rlimit(100)]
pub proof fn lemma_defaults_resolve(env: SpecEnv)
    requires
        env.builtins.len() == 0,
        spec_load_defaults(env).1 == Ok::<(), Error>(()),
    ensures
        spec_load_defaults(env).0.find_builtin("+"@) == Some(SpecExpr::Function("&"@, Builtin::Add)),
        spec_load_defaults(env).0.find_builtin("-"@) == Some(SpecExpr::Function("x & ys"@, Builtin::Sub)),
        spec_load_defaults(env).0.find_builtin("*"@) == Some(SpecExpr::Function("&"@, Builtin::Mul)),
        spec_load_defaults(env).0.find_builtin("/"@) == Some(SpecExpr::Function("x & ys"@, Builtin::Div)),
        spec_load_defaults(env).0.find_builtin("rem"@) == Some(SpecExpr::Function("a b"@, Builtin::Rem)),
{
    reveal_strlit("def");
    reveal_strlit("let");
    reveal_strlit("if");
    reveal_strlit("do");
    reveal_strlit("while");
    reveal_strlit("doseq");
    reveal_strlit("dotimes");
    reveal_strlit("vector");
    reveal_strlit("nth");
    reveal_strlit("peek");
    reveal_strlit("pop");
    reveal_strlit("+");
    reveal_strlit("-");
    reveal_strlit("*");
    reveal_strlit("/");
    reveal_strlit("rem");
    reveal_strlit("inc");
    reveal_strlit("dec");
    reveal_strlit("max");
    reveal_strlit("min");
    reveal_strlit("==");
    reveal_strlit(">");
    reveal_strlit(">=");
    reveal_strlit("<");
    reveal_strlit("<=");
    reveal_strlit("and");
    reveal_strlit("or");
    reveal_strlit("not");
    reveal_strlit("&");
    reveal_strlit("a b");
    reveal_strlit("a b c");
    reveal_strlit("bindings & exprs");
    reveal_strlit("vec");
    reveal_strlit("vec & args");
    reveal_strlit("x");
    reveal_strlit("x & ys");
    assert(('+' as u32) == 43 && ('-' as u32) == 45 && ('*' as u32) == 42 && ('/' as u32)
        == 47 && ('r' as u32) == 114 && ('d' as u32) == 100 && ('l' as u32) == 108 && ('n' as u32)
        == 110 && ('p' as u32) == 112);
    assert("def"@.len() == 3);
    assert("let"@.len() == 3);
    assert("if"@.len() == 2);
    assert("do"@.len() == 2);
    assert("while"@.len() == 5);
    assert("doseq"@.len() == 5);
    assert("dotimes"@.len() == 7);
    assert("vector"@.len() == 6);
    assert("nth"@.len() == 3);
    assert("peek"@.len() == 4);
    assert("pop"@.len() == 3);
    assert("+"@.len() == 1);
    assert("-"@.len() == 1);
    assert("*"@.len() == 1);
    assert("/"@.len() == 1);
    assert("rem"@.len() == 3);
    assert("+"@[0] == '+' && "-"@[0] == '-' && "*"@[0] == '*' && "/"@[0] == '/');
    assert("rem"@[0] == 'r' && "def"@[0] == 'd' && "let"@[0] == 'l' && "nth"@[0] == 'n'
        && "pop"@[0] == 'p');
    let tbl = spec_load_defaults(env).0.builtins;
    assert(tbl.len() == 28);
    assert(tbl[0] == ("def"@, SpecExpr::Function("a b"@, Builtin::Def)));
    assert(tbl[1] == ("let"@, SpecExpr::Function("bindings & exprs"@, Builtin::Let)));
    assert(tbl[2] == ("if"@, SpecExpr::Function("a b c"@, Builtin::If)));
    assert(tbl[3] == ("do"@, SpecExpr::Function("&"@, Builtin::Do)));
    assert(tbl[4] == ("while"@, SpecExpr::Function("x & ys"@, Builtin::While)));
    assert(tbl[5] == ("doseq"@, SpecExpr::Function("bindings & exprs"@, Builtin::DoSeq)));
    assert(tbl[6] == ("dotimes"@, SpecExpr::Function("a b"@, Builtin::DoTimes)));
    assert(tbl[7] == ("vector"@, SpecExpr::Function("&"@, Builtin::NewVector)));
    assert(tbl[8] == ("nth"@, SpecExpr::Function("vec & args"@, Builtin::Nth)));
    assert(tbl[9] == ("peek"@, SpecExpr::Function("vec"@, Builtin::Peek)));
    assert(tbl[10] == ("pop"@, SpecExpr::Function("vec"@, Builtin::Pop)));
    assert(tbl[11] == ("+"@, SpecExpr::Function("&"@, Builtin::Add)));
    assert(tbl[12] == ("-"@, SpecExpr::Function("x & ys"@, Builtin::Sub)));
    assert(tbl[13] == ("*"@, SpecExpr::Function("&"@, Builtin::Mul)));
    assert(tbl[14] == ("/"@, SpecExpr::Function("x & ys"@, Builtin::Div)));
    assert(tbl[15] == ("rem"@, SpecExpr::Function("a b"@, Builtin::Rem)));
    assert(frame_index_of(tbl, "+"@, 11) == Some(11int));
    assert(tbl[10].0 != "+"@);
    assert(frame_index_of(tbl, "+"@, 10) == frame_index_of(tbl, "+"@, 11));
    assert(tbl[9].0 != "+"@);
    assert(frame_index_of(tbl, "+"@, 9) == frame_index_of(tbl, "+"@, 10));
    assert(tbl[8].0 != "+"@);
    assert(frame_index_of(tbl, "+"@, 8) == frame_index_of(tbl, "+"@, 9));
    assert(tbl[7].0 != "+"@);
    assert(frame_index_of(tbl, "+"@, 7) == frame_index_of(tbl, "+"@, 8));
    assert(tbl[6].0 != "+"@);
    assert(frame_index_of(tbl, "+"@, 6) == frame_index_of(tbl, "+"@, 7));
    assert(tbl[5].0 != "+"@);
    assert(frame_index_of(tbl, "+"@, 5) == frame_index_of(tbl, "+"@, 6));
    assert(tbl[4].0 != "+"@);
    assert(frame_index_of(tbl, "+"@, 4) == frame_index_of(tbl, "+"@, 5));
    assert(tbl[3].0 != "+"@);
    assert(frame_index_of(tbl, "+"@, 3) == frame_index_of(tbl, "+"@, 4));
    assert(tbl[2].0 != "+"@);
    assert(frame_index_of(tbl, "+"@, 2) == frame_index_of(tbl, "+"@, 3));
    assert(tbl[1].0 != "+"@);
    assert(frame_index_of(tbl, "+"@, 1) == frame_index_of(tbl, "+"@, 2));
    assert(tbl[0].0 != "+"@);
    assert(frame_index_of(tbl, "+"@, 0) == frame_index_of(tbl, "+"@, 1));
    assert(frame_index_of(tbl, "-"@, 12) == Some(12int));
    assert(tbl[11].0 != "-"@);
    assert(frame_index_of(tbl, "-"@, 11) == frame_index_of(tbl, "-"@, 12));
    assert(tbl[10].0 != "-"@);
    assert(frame_index_of(tbl, "-"@, 10) == frame_index_of(tbl, "-"@, 11));
    assert(tbl[9].0 != "-"@);
    assert(frame_index_of(tbl, "-"@, 9) == frame_index_of(tbl, "-"@, 10));
    assert(tbl[8].0 != "-"@);
    assert(frame_index_of(tbl, "-"@, 8) == frame_index_of(tbl, "-"@, 9));
    assert(tbl[7].0 != "-"@);
    assert(frame_index_of(tbl, "-"@, 7) == frame_index_of(tbl, "-"@, 8));
    assert(tbl[6].0 != "-"@);
    assert(frame_index_of(tbl, "-"@, 6) == frame_index_of(tbl, "-"@, 7));
    assert(tbl[5].0 != "-"@);
    assert(frame_index_of(tbl, "-"@, 5) == frame_index_of(tbl, "-"@, 6));
    assert(tbl[4].0 != "-"@);
    assert(frame_index_of(tbl, "-"@, 4) == frame_index_of(tbl, "-"@, 5));
    assert(tbl[3].0 != "-"@);
    assert(frame_index_of(tbl, "-"@, 3) == frame_index_of(tbl, "-"@, 4));
    assert(tbl[2].0 != "-"@);
    assert(frame_index_of(tbl, "-"@, 2) == frame_index_of(tbl, "-"@, 3));
    assert(tbl[1].0 != "-"@);
    assert(frame_index_of(tbl, "-"@, 1) == frame_index_of(tbl, "-"@, 2));
    assert(tbl[0].0 != "-"@);
    assert(frame_index_of(tbl, "-"@, 0) == frame_index_of(tbl, "-"@, 1));
    assert(frame_index_of(tbl, "*"@, 13) == Some(13int));
    assert(tbl[12].0 != "*"@);
    assert(frame_index_of(tbl, "*"@, 12) == frame_index_of(tbl, "*"@, 13));
    assert(tbl[11].0 != "*"@);
    assert(frame_index_of(tbl, "*"@, 11) == frame_index_of(tbl, "*"@, 12));
    assert(tbl[10].0 != "*"@);
    assert(frame_index_of(tbl, "*"@, 10) == frame_index_of(tbl, "*"@, 11));
    assert(tbl[9].0 != "*"@);
    assert(frame_index_of(tbl, "*"@, 9) == frame_index_of(tbl, "*"@, 10));
    assert(tbl[8].0 != "*"@);
    assert(frame_index_of(tbl, "*"@, 8) == frame_index_of(tbl, "*"@, 9));
    assert(tbl[7].0 != "*"@);
    assert(frame_index_of(tbl, "*"@, 7) == frame_index_of(tbl, "*"@, 8));
    assert(tbl[6].0 != "*"@);
    assert(frame_index_of(tbl, "*"@, 6) == frame_index_of(tbl, "*"@, 7));
    assert(tbl[5].0 != "*"@);
    assert(frame_index_of(tbl, "*"@, 5) == frame_index_of(tbl, "*"@, 6));
    assert(tbl[4].0 != "*"@);
    assert(frame_index_of(tbl, "*"@, 4) == frame_index_of(tbl, "*"@, 5));
    assert(tbl[3].0 != "*"@);
    assert(frame_index_of(tbl, "*"@, 3) == frame_index_of(tbl, "*"@, 4));
    assert(tbl[2].0 != "*"@);
    assert(frame_index_of(tbl, "*"@, 2) == frame_index_of(tbl, "*"@, 3));
    assert(tbl[1].0 != "*"@);
    assert(frame_index_of(tbl, "*"@, 1) == frame_index_of(tbl, "*"@, 2));
    assert(tbl[0].0 != "*"@);
    assert(frame_index_of(tbl, "*"@, 0) == frame_index_of(tbl, "*"@, 1));
    assert(frame_index_of(tbl, "/"@, 14) == Some(14int));
    assert(tbl[13].0 != "/"@);
    assert(frame_index_of(tbl, "/"@, 13) == frame_index_of(tbl, "/"@, 14));
    assert(tbl[12].0 != "/"@);
    assert(frame_index_of(tbl, "/"@, 12) == frame_index_of(tbl, "/"@, 13));
    assert(tbl[11].0 != "/"@);
    assert(frame_index_of(tbl, "/"@, 11) == frame_index_of(tbl, "/"@, 12));
    assert(tbl[10].0 != "/"@);
    assert(frame_index_of(tbl, "/"@, 10) == frame_index_of(tbl, "/"@, 11));
    assert(tbl[9].0 != "/"@);
    assert(frame_index_of(tbl, "/"@, 9) == frame_index_of(tbl, "/"@, 10));
    assert(tbl[8].0 != "/"@);
    assert(frame_index_of(tbl, "/"@, 8) == frame_index_of(tbl, "/"@, 9));
    assert(tbl[7].0 != "/"@);
    assert(frame_index_of(tbl, "/"@, 7) == frame_index_of(tbl, "/"@, 8));
    assert(tbl[6].0 != "/"@);
    assert(frame_index_of(tbl, "/"@, 6) == frame_index_of(tbl, "/"@, 7));
    assert(tbl[5].0 != "/"@);
    assert(frame_index_of(tbl, "/"@, 5) == frame_index_of(tbl, "/"@, 6));
    assert(tbl[4].0 != "/"@);
    assert(frame_index_of(tbl, "/"@, 4) == frame_index_of(tbl, "/"@, 5));
    assert(tbl[3].0 != "/"@);
    assert(frame_index_of(tbl, "/"@, 3) == frame_index_of(tbl, "/"@, 4));
    assert(tbl[2].0 != "/"@);
    assert(frame_index_of(tbl, "/"@, 2) == frame_index_of(tbl, "/"@, 3));
    assert(tbl[1].0 != "/"@);
    assert(frame_index_of(tbl, "/"@, 1) == frame_index_of(tbl, "/"@, 2));
    assert(tbl[0].0 != "/"@);
    assert(frame_index_of(tbl, "/"@, 0) == frame_index_of(tbl, "/"@, 1));
    assert(frame_index_of(tbl, "rem"@, 15) == Some(15int));
    assert(tbl[14].0 != "rem"@);
    assert(frame_index_of(tbl, "rem"@, 14) == frame_index_of(tbl, "rem"@, 15));
    assert(tbl[13].0 != "rem"@);
    assert(frame_index_of(tbl, "rem"@, 13) == frame_index_of(tbl, "rem"@, 14));
    assert(tbl[12].0 != "rem"@);
    assert(frame_index_of(tbl, "rem"@, 12) == frame_index_of(tbl, "rem"@, 13));
    assert(tbl[11].0 != "rem"@);
    assert(frame_index_of(tbl, "rem"@, 11) == frame_index_of(tbl, "rem"@, 12));
    assert(tbl[10].0 != "rem"@);
    assert(frame_index_of(tbl, "rem"@, 10) == frame_index_of(tbl, "rem"@, 11));
    assert(tbl[9].0 != "rem"@);
    assert(frame_index_of(tbl, "rem"@, 9) == frame_index_of(tbl, "rem"@, 10));
    assert(tbl[8].0 != "rem"@);
    assert(frame_index_of(tbl, "rem"@, 8) == frame_index_of(tbl, "rem"@, 9));
    assert(tbl[7].0 != "rem"@);
    assert(frame_index_of(tbl, "rem"@, 7) == frame_index_of(tbl, "rem"@, 8));
    assert(tbl[6].0 != "rem"@);
    assert(frame_index_of(tbl, "rem"@, 6) == frame_index_of(tbl, "rem"@, 7));
    assert(tbl[5].0 != "rem"@);
    assert(frame_index_of(tbl, "rem"@, 5) == frame_index_of(tbl, "rem"@, 6));
    assert(tbl[4].0 != "rem"@);
    assert(frame_index_of(tbl, "rem"@, 4) == frame_index_of(tbl, "rem"@, 5));
    assert(tbl[3].0 != "rem"@);
    assert(frame_index_of(tbl, "rem"@, 3) == frame_index_of(tbl, "rem"@, 4));
    assert(tbl[2].0 != "rem"@);
    assert(frame_index_of(tbl, "rem"@, 2) == frame_index_of(tbl, "rem"@, 3));
    assert(tbl[1].0 != "rem"@);
    assert(frame_index_of(tbl, "rem"@, 1) == frame_index_of(tbl, "rem"@, 2));
    assert(tbl[0].0 != "rem"@);
    assert(frame_index_of(tbl, "rem"@, 0) == frame_index_of(tbl, "rem"@, 1));
}

} // verus!