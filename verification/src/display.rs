use vstd::prelude::*;
use vstd::string::StrSliceExecFns;
use vstd::string::StringExecFns;

use crate::expression::Expression;
use crate::expression::SpecExpr;
use crate::expression::seq_view;
use crate::semantics::split_words;

use crate::eval::strings_view;
use crate::eval::words_of;

verus! {

/// The character of one decimal digit.
pub open spec fn digit_char(d: int) -> char {
    if d == 0 {
        '0'
    } else if d == 1 {
        '1'
    } else if d == 2 {
        '2'
    } else if d == 3 {
        '3'
    } else if d == 4 {
        '4'
    } else if d == 5 {
        '5'
    } else if d == 6 {
        '6'
    } else if d == 7 {
        '7'
    } else if d == 8 {
        '8'
    } else {
        '9'
    }
}

/// The decimal text of a natural number, most significant digit first.
pub open spec fn spec_udec(n: nat) -> Seq<char>
    decreases n,
{
    if n < 10 {
        seq![digit_char(n as int)]
    } else {
        spec_udec(n / 10) + seq![digit_char((n % 10) as int)]
    }
}

/// The decimal text of a signed number: a minus sign before the digits of
/// its magnitude when negative.
pub open spec fn spec_i64_text(n: int) -> Seq<char> {
    if n >= 0 {
        spec_udec(n as nat)
    } else {
        seq!['-'] + spec_udec((-n) as nat)
    }
}

/// The words of a parameter spec run together, as a function displays.
pub open spec fn concat_words(ws: Seq<Seq<char>>, i: int) -> Seq<char>
    decreases ws.len() - i,
{
    if i < 0 || i >= ws.len() {
        Seq::empty()
    } else {
        ws[i] + concat_words(ws, i + 1)
    }
}

/// The canonical text of a value: lists as `( e1 e2 ... )`, vectors as
/// `[ e1 e2 ... ]`, numbers in decimal, booleans, `nil`, symbols as their
/// names, and functions as `(fn [params] (...))` with the parameter words
/// run together.
pub open spec fn spec_text(e: SpecExpr) -> Seq<char>
    decreases e, 0int, 0int,
{
    match e {
        SpecExpr::Bool(b) => if b {
            "true"@
        } else {
            "false"@
        },
        SpecExpr::Nil => "nil"@,
        SpecExpr::Number(n) => spec_i64_text(n as int),
        SpecExpr::Symbol(s) => s,
        SpecExpr::Function(p, _) => "(fn ["@ + concat_words(split_words(p), 0) + "] (...))"@,
        SpecExpr::List(l) => "("@ + spec_elems_text(l, 0) + " )"@,
        SpecExpr::Vector(l) => "["@ + spec_elems_text(l, 0) + " ]"@,
    }
}

/// The texts of the elements from position `i` on, each preceded by one
/// space.
pub open spec fn spec_elems_text(l: Seq<SpecExpr>, i: int) -> Seq<char>
    decreases l, 1int, l.len() - i,
{
    if i < 0 || i >= l.len() {
        Seq::empty()
    } else {
        seq![' '] + spec_text(l[i]) + spec_elems_text(l, i + 1)
    }
}

/// The text of one decimal digit.
fn digit_str(d: u64) -> (r: &'static str)
    requires
        d <= 9,
    ensures
        r@ == seq![digit_char(d as int)],
{
    let r: &'static str = match d {
        0 => "0",
        1 => "1",
        2 => "2",
        3 => "3",
        4 => "4",
        5 => "5",
        6 => "6",
        7 => "7",
        8 => "8",
        _ => "9",
    };
    proof {
        reveal_strlit("0");
        reveal_strlit("1");
        reveal_strlit("2");
        reveal_strlit("3");
        reveal_strlit("4");
        reveal_strlit("5");
        reveal_strlit("6");
        reveal_strlit("7");
        reveal_strlit("8");
        reveal_strlit("9");
        assert(r@ =~= seq![digit_char(d as int)]);
    }
    r
}

/// The decimal text of a natural number.
fn udec(n: u64) -> (r: String)
    ensures
        r@ == spec_udec(n as nat),
    decreases n,
{
    if n < 10 {
        digit_str(n).to_owned()
    } else {
        let mut s = udec(n / 10);
        s.append(digit_str(n % 10));
        proof {
            assert(s@ =~= spec_udec(n as nat));
        }
        s
    }
}

/// The decimal text of a signed number.
fn i64_text(n: i64) -> (r: String)
    ensures
        r@ == spec_i64_text(n as int),
{
    if n >= 0 {
        udec(n as u64)
    } else {
        let magnitude: u64 = ((-(n + 1)) as u64) + 1;
        proof {
            assert(magnitude == -(n as int));
        }
        let mut s = String::from_str("-");
        s.append(udec(magnitude).as_str());
        proof {
            reveal_strlit("-");
            assert(s@ =~= spec_i64_text(n as int));
        }
        s
    }
}


/// The texts of a vector's elements, each preceded by one space.
#[verifier::loop_isolation(false)]
fn elems_to_text(v: &Vec<Expression>) -> (r: String)
    ensures
        r@ == spec_elems_text(seq_view(v@), 0),
    decreases v, 1int,
{
    let mut s = String::new();
    let ghost lv = seq_view(v@);
    let mut i: usize = 0;
    proof {
        assert(s@ + spec_elems_text(lv, 0) =~= spec_elems_text(lv, 0));
    }
    while i < v.len()
        invariant
            i <= v@.len(),
            s@ + spec_elems_text(lv, i as int) == spec_elems_text(lv, 0),
        decreases v@.len() - i,
    {
        proof {
            assert(decreases_to!(v => v@[i as int]));
        }
        let ghost s0 = s@;
        let t = v[i].to_text();
        s.append(" ");
        s.append(t.as_str());
        proof {
            reveal_strlit(" ");
            assert(lv[i as int] == v@[i as int]@);
            assert(s@ + spec_elems_text(lv, i + 1) =~= s0 + spec_elems_text(lv, i as int));
        }
        i = i + 1;
    }
    proof {
        assert(spec_elems_text(lv, v@.len() as int) =~= Seq::<char>::empty());
        assert(s@ =~= spec_elems_text(lv, 0));
    }
    s
}

impl Expression {
    /// The canonical text of this value, exactly as `spec_text` lays it
    /// out; re-parsing the text of a list of plain data yields an equal
    /// tree.
    pub fn to_text(&self) -> (r: String)
        ensures
            r@ == spec_text(self@),
        decreases self, 0int,
    {
        match self {
            Expression::Bool(b) => {
                if *b {
                    String::from_str("true")
                } else {
                    String::from_str("false")
                }
            },
            Expression::Nil => String::from_str("nil"),
            Expression::Number(n) => i64_text(*n),
            Expression::Symbol(s) => s.clone(),
            Expression::Function(p, _) => {
                let mut s = String::from_str("(fn [");
                let words = words_of(p.as_str());
                let ghost ws = split_words(p@);
                let mut i: usize = 0;
                proof {
                    assert(strings_view(words@) == ws);
                    assert(s@ + concat_words(ws, 0) =~= "(fn ["@ + concat_words(ws, 0));
                }
                while i < words.len()
                    invariant
                        i <= words@.len(),
                        strings_view(words@) == ws,
                        s@ + concat_words(ws, i as int) == "(fn ["@ + concat_words(ws, 0),
                    decreases words@.len() - i,
                {
                    let ghost s0 = s@;
                    s.append(words[i].as_str());
                    proof {
                        assert(words@[i as int]@ == ws[i as int]);
                        assert(s@ + concat_words(ws, i + 1) =~= s0 + concat_words(ws, i as int));
                    }
                    i = i + 1;
                }
                s.append("] (...))");
                proof {
                    assert(concat_words(ws, words@.len() as int) =~= Seq::<char>::empty());
                    assert(s@ =~= spec_text(self@));
                }
                s
            },
            Expression::List(v) => {
                let mut s = String::from_str("(");
                s.append(elems_to_text(v).as_str());
                s.append(" )");
                proof {
                    assert(s@ =~= spec_text(self@));
                }
                s
            },
            Expression::Vector(v) => {
                let mut s = String::from_str("[");
                s.append(elems_to_text(v).as_str());
                s.append(" ]");
                proof {
                    assert(s@ =~= spec_text(self@));
                }
                s
            },
        }
    }
}

} // verus!
