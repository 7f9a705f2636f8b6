use vstd::prelude::*;

use crate::error::Error;

verus! {

/// The tag of a natively implemented builtin body.
///
/// Scripts cannot synthesize new function bodies; every `Function` value
/// carries one of these tags, and the evaluator dispatches on the tag once
/// the call arguments have been bound.
#[derive(Clone, Copy, Debug, PartialEq, Eq, Structural)]
pub enum Builtin {
    /// `def`: bind a name in the global frame.
    Def,
    /// `let`: sequential local bindings, then body forms.
    Let,
    /// `if`: conditional with lazy branches.
    If,
    /// `do`: evaluate every form, return the last result.
    Do,
    /// `while`: condition-bounded loop.
    While,
    /// `doseq`: parallel iteration across literal vectors.
    DoSeq,
    /// `dotimes`: count-bounded loop.
    DoTimes,
    /// `vector`: build a vector of evaluated elements.
    NewVector,
    /// `nth`: vector indexing with an optional default.
    Nth,
    /// `peek`: last element of a vector.
    Peek,
    /// `pop`: a vector without its last element.
    Pop,
    /// `+`: checked addition over all arguments.
    Add,
    /// `-`: checked subtraction, or negation of a single argument.
    Sub,
    /// `*`: checked multiplication over all arguments.
    Mul,
    /// `/`: checked division, left to right.
    Div,
    /// `rem`: checked remainder.
    Rem,
    /// `inc`: checked increment.
    Inc,
    /// `dec`: checked decrement.
    Dec,
    /// `max`: greatest argument.
    Max,
    /// `min`: least argument.
    Min,
    /// `==`: chained structural equality.
    CmpEq,
    /// `>`: chained strictly-decreasing test.
    CmpGt,
    /// `>=`: chained non-increasing test.
    CmpGe,
    /// `<`: chained strictly-increasing test.
    CmpLt,
    /// `<=`: chained non-decreasing test.
    CmpLe,
    /// `and`: conjunction over all (always evaluated) arguments.
    BoolAnd,
    /// `or`: disjunction over all (always evaluated) arguments.
    BoolOr,
    /// `not`: boolean negation.
    BoolNot,
}

/// A native function body, identified by its builtin tag.
#[derive(Clone, Copy, Debug, PartialEq, Eq, Structural)]
pub struct FnBody(pub Builtin);

/// The single value and syntax-tree type of the language.
///
/// A `List` is a call form when evaluated; a `Vector` is a self-evaluating
/// literal aggregate. `Function` values are only constructible by host-side
/// registration, never by a script.
#[derive(Debug)]
pub enum Expression {
    Bool(bool),
    Function(String, FnBody),
    List(Vec<Expression>),
    Nil,
    Number(i64),
    Symbol(String),
    Vector(Vec<Expression>),
}

/// The mathematical model of an [`Expression`]: the same tree with strings
/// as character sequences and element vectors as sequences.
pub ghost enum SpecExpr {
    Bool(bool),
    Function(Seq<char>, Builtin),
    List(Seq<SpecExpr>),
    Nil,
    Number(i64),
    Symbol(Seq<char>),
    Vector(Seq<SpecExpr>),
}

/// The models of the elements of a vector of expressions.
pub open spec fn seq_view(s: Seq<Expression>) -> Seq<SpecExpr>
    decreases s,
{
    Seq::new(
        s.len(),
        |i: int|
            if 0 <= i < s.len() {
                s[i].view()
            } else {
                SpecExpr::Nil
            },
    )
}

impl View for Expression {
    type V = SpecExpr;

    open spec fn view(&self) -> SpecExpr
        decreases self,
    {
        match self {
            Expression::Bool(b) => SpecExpr::Bool(*b),
            Expression::Function(p, f) => SpecExpr::Function(p@, f.0),
            Expression::List(v) => SpecExpr::List(seq_view(v@)),
            Expression::Nil => SpecExpr::Nil,
            Expression::Number(n) => SpecExpr::Number(*n),
            Expression::Symbol(s) => SpecExpr::Symbol(s@),
            Expression::Vector(v) => SpecExpr::Vector(seq_view(v@)),
        }
    }
}

impl Clone for Expression {
    /// Deep structural copy: the copy has the same model as the original.
    fn clone(&self) -> (r: Self)
        ensures
            r@ == self@,
        decreases self,
    {
        match self {
            Expression::Bool(b) => Expression::Bool(*b),
            Expression::Function(p, f) => Expression::Function(p.clone(), *f),
            Expression::List(v) => Expression::List(clone_elements(v)),
            Expression::Nil => Expression::Nil,
            Expression::Number(n) => Expression::Number(*n),
            Expression::Symbol(s) => Expression::Symbol(s.clone()),
            Expression::Vector(v) => Expression::Vector(clone_elements(v)),
        }
    }
}

/// Deep structural copy of every element of a vector of expressions.
fn clone_elements(v: &Vec<Expression>) -> (r: Vec<Expression>)
    ensures
        seq_view(r@) == seq_view(v@),
        r@.len() == v@.len(),
    decreases v,
{
    let mut r: Vec<Expression> = Vec::new();
    let n = v.len();
    let mut i: usize = 0;
    while i < n
        invariant
            i <= n,
            n == v@.len(),
            r@.len() == i,
            forall|j: int| 0 <= j < i ==> r@[j]@ == v@[j]@,
        decreases n - i,
    {
        proof {
            assert(decreases_to!(v => v@[i as int]));
        }
        let e = &v[i];
        r.push(e.clone());
        i = i + 1;
    }
    proof {
        assert(seq_view(r@) =~= seq_view(v@));
    }
    r
}

impl Expression {
    /// Whether this value is a boolean.
    pub fn is_bool(&self) -> (r: bool)
        ensures
            r == (self@ is Bool),
    {
        matches!(self, Expression::Bool(_))
    }

    /// Whether this value is a function.
    pub fn is_function(&self) -> (r: bool)
        ensures
            r == (self@ is Function),
    {
        matches!(self, Expression::Function(_, _))
    }

    /// Whether this value is a list.
    pub fn is_list(&self) -> (r: bool)
        ensures
            r == (self@ is List),
    {
        matches!(self, Expression::List(_))
    }

    /// Whether this value is nil.
    pub fn is_nil(&self) -> (r: bool)
        ensures
            r == (self@ is Nil),
    {
        matches!(self, Expression::Nil)
    }

    /// Whether this value is a number.
    pub fn is_number(&self) -> (r: bool)
        ensures
            r == (self@ is Number),
    {
        matches!(self, Expression::Number(_))
    }

    /// Whether this value is a symbol.
    pub fn is_symbol(&self) -> (r: bool)
        ensures
            r == (self@ is Symbol),
    {
        matches!(self, Expression::Symbol(_))
    }

    /// Whether this value is a vector.
    pub fn is_vector(&self) -> (r: bool)
        ensures
            r == (self@ is Vector),
    {
        matches!(self, Expression::Vector(_))
    }
}

/// The number a model value converts to: only `Number` converts.
pub open spec fn spec_to_i64(e: SpecExpr) -> Result<i64, Error> {
    match e {
        SpecExpr::Number(n) => Ok(n),
        _ => Err(Error::ImpossibleConversion),
    }
}

/// The boolean a model value converts to: only `Bool` converts.
pub open spec fn spec_to_bool(e: SpecExpr) -> Result<bool, Error> {
    match e {
        SpecExpr::Bool(b) => Ok(b),
        _ => Err(Error::ImpossibleConversion),
    }
}

/// The name a model value converts to: only `Symbol` converts.
pub open spec fn spec_to_symbol(e: SpecExpr) -> Result<Seq<char>, Error> {
    match e {
        SpecExpr::Symbol(s) => Ok(s),
        _ => Err(Error::ImpossibleConversion),
    }
}

/// The element sequence a model value converts to: `List` and `Vector` convert.
pub open spec fn spec_to_items(e: SpecExpr) -> Result<Seq<SpecExpr>, Error> {
    match e {
        SpecExpr::List(l) => Ok(l),
        SpecExpr::Vector(l) => Ok(l),
        _ => Err(Error::ImpossibleConversion),
    }
}

/// The parameter spec and body a model value converts to: only `Function`.
pub open spec fn spec_to_function(e: SpecExpr) -> Result<(Seq<char>, Builtin), Error> {
    match e {
        SpecExpr::Function(p, b) => Ok((p, b)),
        _ => Err(Error::ImpossibleConversion),
    }
}

impl Expression {
    /// The number this value holds, or `ImpossibleConversion`.
    pub fn into_number(self) -> (r: Result<i64, Error>)
        ensures
            r == spec_to_i64(self@),
    {
        match self {
            Expression::Number(n) => Ok(n),
            _ => Err(Error::ImpossibleConversion),
        }
    }

    /// The boolean this value holds, or `ImpossibleConversion`.
    pub fn into_bool(self) -> (r: Result<bool, Error>)
        ensures
            r == spec_to_bool(self@),
    {
        match self {
            Expression::Bool(b) => Ok(b),
            _ => Err(Error::ImpossibleConversion),
        }
    }

    /// The symbol name this value holds, or `ImpossibleConversion`.
    pub fn into_symbol(self) -> (r: Result<String, Error>)
        ensures
            match r {
                Ok(s) => spec_to_symbol(self@) == Ok::<Seq<char>, Error>(s@),
                Err(e) => spec_to_symbol(self@) == Err::<Seq<char>, Error>(e),
            },
    {
        match self {
            Expression::Symbol(s) => Ok(s),
            _ => Err(Error::ImpossibleConversion),
        }
    }

    /// The elements this list or vector holds, or `ImpossibleConversion`.
    pub fn into_items(self) -> (r: Result<Vec<Expression>, Error>)
        ensures
            match r {
                Ok(v) => spec_to_items(self@) == Ok::<Seq<SpecExpr>, Error>(seq_view(v@)),
                Err(e) => spec_to_items(self@) == Err::<Seq<SpecExpr>, Error>(e),
            },
    {
        match self {
            Expression::List(v) => Ok(v),
            Expression::Vector(v) => Ok(v),
            _ => Err(Error::ImpossibleConversion),
        }
    }

    /// The parameter spec and body this function holds, or `ImpossibleConversion`.
    pub fn into_function(self) -> (r: Result<(String, FnBody), Error>)
        ensures
            match r {
                Ok(pb) => spec_to_function(self@) == Ok::<(Seq<char>, Builtin), Error>(
                    (pb.0@, pb.1.0),
                ),
                Err(e) => spec_to_function(self@) == Err::<(Seq<char>, Builtin), Error>(e),
            },
    {
        match self {
            Expression::Function(p, b) => Ok((p, b)),
            _ => Err(Error::ImpossibleConversion),
        }
    }
}

} // verus!

verus! {

/// The outcome of comparing two comparable expressions.
#[derive(Clone, Copy, Debug, PartialEq, Eq, Structural)]
pub enum ExprOrder {
    Less,
    Equal,
    Greater,
}

/// Lexicographic comparison of two character sequences from position `i` on,
/// by code point, as the standard library orders strings.
pub open spec fn lex_cmp_at(a: Seq<char>, b: Seq<char>, i: int) -> ExprOrder
    decreases a.len() - i,
{
    if i >= a.len() && i >= b.len() {
        ExprOrder::Equal
    } else if i >= a.len() {
        ExprOrder::Less
    } else if i >= b.len() {
        ExprOrder::Greater
    } else if i < 0 {
        ExprOrder::Equal
    } else if a[i] == b[i] {
        lex_cmp_at(a, b, i + 1)
    } else if (a[i] as u32) < (b[i] as u32) {
        ExprOrder::Less
    } else {
        ExprOrder::Greater
    }
}

/// Lexicographic comparison of two character sequences.
pub open spec fn lex_cmp(a: Seq<char>, b: Seq<char>) -> ExprOrder {
    lex_cmp_at(a, b, 0)
}

/// Structural equality of two model values.
///
/// It holds only within one variant: booleans, numbers and symbols compare
/// by value, lists with lists and vectors with vectors element-wise. Any
/// cross-variant pair, and any pair of functions, is unequal.
pub open spec fn spec_expr_eq(a: SpecExpr, b: SpecExpr) -> bool
    decreases a, 0int,
{
    match (a, b) {
        (SpecExpr::Bool(l), SpecExpr::Bool(r)) => l == r,
        (SpecExpr::Nil, SpecExpr::Nil) => true,
        (SpecExpr::Number(l), SpecExpr::Number(r)) => l == r,
        (SpecExpr::Symbol(l), SpecExpr::Symbol(r)) => l == r,
        (SpecExpr::List(l), SpecExpr::List(r)) => seq_expr_eq(l, r),
        (SpecExpr::Vector(l), SpecExpr::Vector(r)) => seq_expr_eq(l, r),
        _ => false,
    }
}

/// Element-wise structural equality of two model sequences.
pub open spec fn seq_expr_eq(l: Seq<SpecExpr>, r: Seq<SpecExpr>) -> bool
    decreases l, 1int,
{
    l.len() == r.len() && (forall|i: int|
        0 <= i < l.len() ==> spec_expr_eq(#[trigger] l[i], r[i]))
}

/// The order of two model values, when they are comparable.
///
/// Values of one comparable variant (booleans, nil, numbers, symbols)
/// compare by value; lists with lists and vectors with vectors compare
/// element-wise, the first unequal pair deciding, pairs beyond the shorter
/// sequence ignored. Everything else, functions included, is incomparable
/// and reports `TypeMismatch`.
pub open spec fn spec_cmp(a: SpecExpr, b: SpecExpr) -> Result<ExprOrder, Error>
    decreases a, 0int, 0int,
{
    match (a, b) {
        (SpecExpr::Bool(l), SpecExpr::Bool(r)) => Ok(
            if l == r {
                ExprOrder::Equal
            } else if !l {
                ExprOrder::Less
            } else {
                ExprOrder::Greater
            },
        ),
        (SpecExpr::Nil, SpecExpr::Nil) => Ok(ExprOrder::Equal),
        (SpecExpr::Number(l), SpecExpr::Number(r)) => Ok(
            if l < r {
                ExprOrder::Less
            } else if l == r {
                ExprOrder::Equal
            } else {
                ExprOrder::Greater
            },
        ),
        (SpecExpr::Symbol(l), SpecExpr::Symbol(r)) => Ok(lex_cmp(l, r)),
        (SpecExpr::List(l), SpecExpr::List(r)) => seq_cmp(l, r, 0),
        (SpecExpr::Vector(l), SpecExpr::Vector(r)) => seq_cmp(l, r, 0),
        _ => Err(Error::TypeMismatch),
    }
}

/// Element-wise comparison of two model sequences from position `i` on:
/// the first pair that does not compare `Equal` decides; an incomparable
/// pair met on the way is an error; if one sequence runs out, the result
/// is `Equal` whatever the other still holds.
pub open spec fn seq_cmp(l: Seq<SpecExpr>, r: Seq<SpecExpr>, i: int) -> Result<ExprOrder, Error>
    decreases l, 1int, (if i <= l.len() { l.len() - i } else { 0 }),
{
    if i < 0 || i >= l.len() || i >= r.len() {
        Ok(ExprOrder::Equal)
    } else {
        match spec_cmp(l[i], r[i]) {
            Err(e) => Err(e),
            Ok(ExprOrder::Equal) => seq_cmp(l, r, i + 1),
            Ok(o) => Ok(o),
        }
    }
}

/// Whether two model values compare under the partial order: only booleans,
/// nil, numbers and symbols compare, and only within their own variant.
pub open spec fn spec_partial_cmp(a: SpecExpr, b: SpecExpr) -> Option<ExprOrder> {
    match (a, b) {
        (SpecExpr::Bool(_), SpecExpr::Bool(_)) => some_of(spec_cmp(a, b)),
        (SpecExpr::Nil, SpecExpr::Nil) => some_of(spec_cmp(a, b)),
        (SpecExpr::Number(_), SpecExpr::Number(_)) => some_of(spec_cmp(a, b)),
        (SpecExpr::Symbol(_), SpecExpr::Symbol(_)) => some_of(spec_cmp(a, b)),
        _ => None,
    }
}

/// The `Ok` payload of a comparison known to succeed.
pub open spec fn some_of(r: Result<ExprOrder, Error>) -> Option<ExprOrder> {
    match r {
        Ok(o) => Some(o),
        Err(_) => None,
    }
}

/// Whether two strings hold the same characters.
pub fn str_eq(a: &str, b: &str) -> (r: bool)
    ensures
        r == (a@ == b@),
{
    let n = a.unicode_len();
    if n != b.unicode_len() {
        return false;
    }
    let mut i: usize = 0;
    while i < n
        invariant
            n == a@.len(),
            n == b@.len(),
            i <= n,
            forall|j: int| 0 <= j < i ==> a@[j] == b@[j],
        decreases n - i,
    {
        if a.get_char(i) != b.get_char(i) {
            return false;
        }
        i = i + 1;
    }
    proof {
        assert(a@ =~= b@);
    }
    true
}

/// Lexicographic comparison of two strings.
pub fn str_cmp(a: &str, b: &str) -> (r: ExprOrder)
    ensures
        r == lex_cmp(a@, b@),
{
    let na = a.unicode_len();
    let nb = b.unicode_len();
    let mut i: usize = 0;
    loop
        invariant
            na == a@.len(),
            nb == b@.len(),
            i <= na,
            i <= nb,
            lex_cmp(a@, b@) == lex_cmp_at(a@, b@, i as int),
        decreases na - i,
    {
        if i >= na && i >= nb {
            return ExprOrder::Equal;
        } else if i >= na {
            return ExprOrder::Less;
        } else if i >= nb {
            return ExprOrder::Greater;
        }
        let ca = a.get_char(i);
        let cb = b.get_char(i);
        if ca != cb {
            if (ca as u32) < (cb as u32) {
                return ExprOrder::Less;
            } else {
                return ExprOrder::Greater;
            }
        }
        i = i + 1;
    }
}

impl Expression {
    /// Structural equality, decided without consulting any environment.
    pub fn expr_eq(&self, other: &Expression) -> (r: bool)
        ensures
            r == spec_expr_eq(self@, other@),
        decreases self,
    {
        match (self, other) {
            (Expression::Bool(l), Expression::Bool(r)) => l == r,
            (Expression::Nil, Expression::Nil) => true,
            (Expression::Number(l), Expression::Number(r)) => l == r,
            (Expression::Symbol(l), Expression::Symbol(r)) => str_eq(l.as_str(), r.as_str()),
            (Expression::List(l), Expression::List(r)) => eq_elements(l, r),
            (Expression::Vector(l), Expression::Vector(r)) => eq_elements(l, r),
            _ => false,
        }
    }

    /// The order of this value against another, or `TypeMismatch` where the
    /// two do not compare totally.
    pub fn try_cmp(&self, other: &Expression) -> (r: Result<ExprOrder, Error>)
        ensures
            r == spec_cmp(self@, other@),
        decreases self,
    {
        match (self, other) {
            (Expression::Bool(l), Expression::Bool(r)) => Ok(
                if l == r {
                    ExprOrder::Equal
                } else if !*l {
                    ExprOrder::Less
                } else {
                    ExprOrder::Greater
                },
            ),
            (Expression::Nil, Expression::Nil) => Ok(ExprOrder::Equal),
            (Expression::Number(l), Expression::Number(r)) => Ok(
                if l < r {
                    ExprOrder::Less
                } else if l == r {
                    ExprOrder::Equal
                } else {
                    ExprOrder::Greater
                },
            ),
            (Expression::Symbol(l), Expression::Symbol(r)) => Ok(
                str_cmp(l.as_str(), r.as_str()),
            ),
            (Expression::List(l), Expression::List(r)) => cmp_elements(l, r),
            (Expression::Vector(l), Expression::Vector(r)) => cmp_elements(l, r),
            _ => Err(Error::TypeMismatch),
        }
    }

    /// The partial order of this value against another: `None` unless both
    /// are booleans, both nil, both numbers or both symbols.
    pub fn partial_compare(&self, other: &Expression) -> (r: Option<ExprOrder>)
        ensures
            r == spec_partial_cmp(self@, other@),
    {
        match (self, other) {
            (Expression::Bool(_), Expression::Bool(_))
            | (Expression::Nil, Expression::Nil)
            | (Expression::Number(_), Expression::Number(_))
            | (Expression::Symbol(_), Expression::Symbol(_)) => match self.try_cmp(other) {
                Ok(o) => Some(o),
                Err(_) => None,
            },
            _ => None,
        }
    }
}

/// Element-wise structural equality of two vectors of expressions.
fn eq_elements(l: &Vec<Expression>, r: &Vec<Expression>) -> (res: bool)
    ensures
        res == seq_expr_eq(seq_view(l@), seq_view(r@)),
    decreases l,
{
    let n = l.len();
    if n != r.len() {
        return false;
    }
    let mut i: usize = 0;
    while i < n
        invariant
            n == l@.len(),
            n == r@.len(),
            i <= n,
            forall|j: int| 0 <= j < i ==> spec_expr_eq(#[trigger] seq_view(l@)[j], seq_view(r@)[j]),
        decreases n - i,
    {
        proof {
            assert(decreases_to!(l => l@[i as int]));
        }
        if !l[i].expr_eq(&r[i]) {
            proof {
                assert(!spec_expr_eq(seq_view(l@)[i as int], seq_view(r@)[i as int]));
            }
            return false;
        }
        i = i + 1;
    }
    true
}

/// Element-wise comparison of two vectors of expressions.
fn cmp_elements(l: &Vec<Expression>, r: &Vec<Expression>) -> (res: Result<ExprOrder, Error>)
    ensures
        res == seq_cmp(seq_view(l@), seq_view(r@), 0),
    decreases l,
{
    let na = l.len();
    let nb = r.len();
    let mut i: usize = 0;
    loop
        invariant
            na == l@.len(),
            nb == r@.len(),
            i <= na,
            i <= nb,
            seq_cmp(seq_view(l@), seq_view(r@), 0) == seq_cmp(
                seq_view(l@),
                seq_view(r@),
                i as int,
            ),
        decreases na - i,
    {
        if i >= na || i >= nb {
            return Ok(ExprOrder::Equal);
        }
        proof {
            assert(decreases_to!(l => l@[i as int]));
        }
        match l[i].try_cmp(&r[i]) {
            Err(e) => {
                return Err(e);
            },
            Ok(ExprOrder::Equal) => {
                i = i + 1;
            },
            Ok(o) => {
                return Ok(o);
            },
        }
    }
}

impl PartialEq for Expression {
    /// Structural equality; false across variants and for functions.
    fn eq(&self, other: &Expression) -> (r: bool) {
        self.expr_eq(other)
    }
}

impl vstd::std_specs::cmp::PartialEqSpecImpl for Expression {
    open spec fn obeys_eq_spec() -> bool {
        true
    }

    open spec fn eq_spec(&self, other: &Expression) -> bool {
        spec_expr_eq(self@, other@)
    }
}

} // verus!

verus! {

/// A value models a function exactly when it is one; likewise for each
/// other variant the model variant follows the value's.
pub proof fn lemma_function_view(e: &Expression)
    ensures
        (e@ is Function) <==> (e matches Expression::Function(_, _)),
{
    match e {
        Expression::Bool(_) => {},
        Expression::Function(_, _) => {},
        Expression::List(_) => {},
        Expression::Nil => {},
        Expression::Number(_) => {},
        Expression::Symbol(_) => {},
        Expression::Vector(_) => {},
    }
}

} // verus!
