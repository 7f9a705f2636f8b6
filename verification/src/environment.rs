use vstd::prelude::*;
use vstd::string::StringExecFns;

use crate::error::Error;
use crate::expression::Builtin;
use crate::expression::Expression;
use crate::expression::FnBody;
use crate::expression::SpecExpr;
use crate::expression::str_eq;

verus! {

/// The model of one call frame: name/value bindings in push order.
pub type SpecFrame = Seq<(Seq<char>, SpecExpr)>;

/// The model of an [`Environment`]: the builtin table in registration
/// order, and the frame stack with the global frame first and the newest
/// frame last.
pub ghost struct SpecEnv {
    pub builtins: SpecFrame,
    pub stack: Seq<SpecFrame>,
}

/// The models of the bindings of one frame.
pub open spec fn frame_view(f: Seq<(String, Expression)>) -> SpecFrame {
    Seq::new(
        f.len(),
        |i: int|
            if 0 <= i < f.len() {
                (f[i].0@, f[i].1@)
            } else {
                (Seq::<char>::empty(), SpecExpr::Nil)
            },
    )
}

/// The models of a stack of frames.
pub open spec fn stack_view(s: Seq<Vec<(String, Expression)>>) -> Seq<SpecFrame> {
    Seq::new(
        s.len(),
        |i: int|
            if 0 <= i < s.len() {
                frame_view(s[i]@)
            } else {
                Seq::empty()
            },
    )
}

/// The index of the first binding named `name` in frame `f` at or after
/// position `i`, if any.
pub open spec fn frame_index_of(f: SpecFrame, name: Seq<char>, i: int) -> Option<int>
    decreases f.len() - i,
{
    if i < 0 || i >= f.len() {
        None
    } else if f[i].0 == name {
        Some(i)
    } else {
        frame_index_of(f, name, i + 1)
    }
}

/// The value of the first binding named `name` in frame `f`, if any.
pub open spec fn frame_find(f: SpecFrame, name: Seq<char>) -> Option<SpecExpr> {
    match frame_index_of(f, name, 0) {
        Some(i) => Some(f[i].1),
        None => None,
    }
}

/// A frame with a binding written: the first binding of that name is
/// overwritten if one exists, else the binding is appended.
pub open spec fn frame_store(f: SpecFrame, name: Seq<char>, val: SpecExpr) -> SpecFrame {
    match frame_index_of(f, name, 0) {
        Some(i) => f.update(i, (name, val)),
        None => f.push((name, val)),
    }
}

/// Where `frame_index_of` finds a binding, the position is in range and
/// bears the name; where it finds none, no position in range does.
pub proof fn lemma_frame_index_of(f: SpecFrame, name: Seq<char>, i0: int)
    requires
        0 <= i0,
    ensures
        frame_index_of(f, name, i0) matches Some(j) ==> i0 <= j < f.len() && f[j].0 == name,
        frame_index_of(f, name, i0) is None ==> forall|k: int|
            i0 <= k < f.len() ==> (#[trigger] f[k]).0 != name,
    decreases f.len() - i0,
{
    if i0 < 0 || i0 >= f.len() {
    } else if f[i0].0 == name {
    } else {
        lemma_frame_index_of(f, name, i0 + 1);
        if frame_index_of(f, name, i0) is None {
            assert forall|k: int| i0 <= k < f.len() implies (#[trigger] f[k]).0 != name by {
                if k > i0 {
                    assert(f[k].0 != name);
                }
            }
        }
    }
}

impl SpecEnv {
    /// The registered builtin under `name`, if any.
    pub open spec fn find_builtin(self, name: Seq<char>) -> Option<SpecExpr> {
        frame_find(self.builtins, name)
    }

    /// The value bound to `name`, searching frames newest to oldest; the
    /// builtin table is not consulted.
    pub open spec fn find_data(self, name: Seq<char>) -> Option<SpecExpr> {
        stack_find_down(self.stack, name, self.stack.len() - 1)
    }

    /// The environment after `define_var`: the binding is written into the
    /// oldest (global) frame, whatever the call depth.
    pub open spec fn define_var(self, name: Seq<char>, val: SpecExpr) -> SpecEnv {
        if self.stack.len() == 0 {
            self
        } else {
            SpecEnv { stack: self.stack.update(0, frame_store(self.stack[0], name, val)), ..self }
        }
    }

    /// The environment after `push_stack`: the binding is written into the
    /// newest frame.
    pub open spec fn push_stack(self, name: Seq<char>, val: SpecExpr) -> SpecEnv {
        if self.stack.len() == 0 {
            self
        } else {
            let last = self.stack.len() - 1;
            SpecEnv {
                stack: self.stack.update(last, frame_store(self.stack[last], name, val)),
                ..self
            }
        }
    }

    /// The outcome of `pop_stack_if_named`: only when the last binding of
    /// the newest frame bears exactly `name` is it removed and returned;
    /// otherwise the environment is unchanged and `DataNotFound` reported.
    pub open spec fn pop_stack_if_named(self, name: Seq<char>) -> (SpecEnv, Result<
        SpecExpr,
        Error,
    >) {
        if self.stack.len() == 0 {
            (self, Err(Error::StackError))
        } else {
            let last = self.stack.len() - 1;
            let f = self.stack[last];
            if f.len() == 0 {
                (self, Err(Error::DataNotFound))
            } else if f.last().0 == name {
                (
                    SpecEnv { stack: self.stack.update(last, f.drop_last()), ..self },
                    Ok(f.last().1),
                )
            } else {
                (self, Err(Error::DataNotFound))
            }
        }
    }

    /// The environment with a fresh, empty frame pushed.
    pub open spec fn push_frame(self) -> SpecEnv {
        SpecEnv { stack: self.stack.push(Seq::empty()), ..self }
    }

    /// The environment with the newest frame dropped; the global frame is
    /// never dropped.
    pub open spec fn pop_frame(self) -> SpecEnv {
        if self.stack.len() <= 1 {
            self
        } else {
            SpecEnv { stack: self.stack.drop_last(), ..self }
        }
    }

    /// The outcome of registering a builtin: `DuplicateSymbol` if the name
    /// is taken, else the table grows by one `Function` entry.
    pub open spec fn load_builtin(self, name: Seq<char>, params: Seq<char>, tag: Builtin) -> (
        SpecEnv,
        Result<(), Error>,
    ) {
        if frame_index_of(self.builtins, name, 0) is Some {
            (self, Err(Error::DuplicateSymbol))
        } else {
            (
                SpecEnv {
                    builtins: self.builtins.push((name, SpecExpr::Function(params, tag))),
                    ..self
                },
                Ok(()),
            )
        }
    }
}

/// The value bound to `name` in the frames at positions `j` down to `0`,
/// newest considered first.
pub open spec fn stack_find_down(stack: Seq<SpecFrame>, name: Seq<char>, j: int) -> Option<
    SpecExpr,
>
    decreases j + 1,
{
    if j < 0 || j >= stack.len() {
        None
    } else {
        match frame_find(stack[j], name) {
            Some(v) => Some(v),
            None => stack_find_down(stack, name, j - 1),
        }
    }
}

/// The environment stores builtin functions and runtime data, in order to
/// evaluate scripts.
///
/// The global frame is kept apart from the local frames, so that `def`
/// visibly targets a distinct table; in the model the stack is the global
/// frame followed by the local frames, newest last.
#[derive(Clone)]
pub struct Environment {
    builtins: Vec<(String, Expression)>,
    globals: Vec<(String, Expression)>,
    locals: Vec<Vec<(String, Expression)>>,
}

impl View for Environment {
    type V = SpecEnv;

    closed spec fn view(&self) -> SpecEnv {
        SpecEnv {
            builtins: frame_view(self.builtins@),
            stack: seq![frame_view(self.globals@)] + stack_view(self.locals@),
        }
    }
}

/// The first position named `name` in an executable frame, if any.
fn frame_position(f: &Vec<(String, Expression)>, name: &str) -> (r: Option<usize>)
    ensures
        match r {
            Some(i) => i < f@.len() && frame_index_of(frame_view(f@), name@, 0) == Some(i as int)
                && frame_view(f@)[i as int].0 == name@ && frame_find(frame_view(f@), name@)
                == Some(frame_view(f@)[i as int].1),
            None => frame_index_of(frame_view(f@), name@, 0) is None && frame_find(
                frame_view(f@),
                name@,
            ) is None,
        },
{
    let n = f.len();
    let mut i: usize = 0;
    while i < n
        invariant
            n == f@.len(),
            i <= n,
            frame_index_of(frame_view(f@), name@, 0) == frame_index_of(
                frame_view(f@),
                name@,
                i as int,
            ),
        decreases n - i,
    {
        if str_eq(f[i].0.as_str(), name) {
            proof {
                lemma_frame_index_of(frame_view(f@), name@, 0);
            }
            return Some(i);
        }
        i = i + 1;
    }
    None
}

/// A binding written into an executable frame, as `frame_store` writes it.
fn frame_write(f: &mut Vec<(String, Expression)>, name: &str, val: Expression)
    ensures
        frame_view(final(f)@) == frame_store(frame_view(old(f)@), name@, val@),
{
    let ghost f0 = frame_view(old(f)@);
    match frame_position(f, name) {
        Some(i) => {
            f[i] = (String::from_str(name), val);
            proof {
                assert(frame_view(f@) =~= f0.update(i as int, (name@, val@)));
            }
        },
        None => {
            f.push((String::from_str(name), val));
            proof {
                assert(frame_view(f@) =~= f0.push((name@, val@)));
            }
        },
    }
}

impl Environment {
    /// A fresh environment: no builtins, an empty global frame, no locals.
    pub fn new() -> (r: Self)
        ensures
            r@.builtins.len() == 0,
            r@.stack.len() == 1,
            r@.stack[0].len() == 0,
    {
        Environment { builtins: Vec::new(), globals: Vec::new(), locals: Vec::new() }
    }

    /// Registers a native function under `name`, failing with
    /// `DuplicateSymbol` if the name is already registered.
    pub fn load_builtin(&mut self, name: &str, func: (&str, FnBody)) -> (r: Result<(), Error>)
        ensures
            ({
                let (e2, res) = old(self)@.load_builtin(name@, func.0@, func.1.0);
                final(self)@ == e2 && r == res
            }),
    {
        let (params, body) = func;
        match frame_position(&self.builtins, name) {
            Some(_) => Err(Error::DuplicateSymbol),
            None => {
                self.builtins.push(
                    (
                        String::from_str(name),
                        Expression::Function(String::from_str(params), body),
                    ),
                );
                proof {
                    assert(frame_view(self.builtins@) =~= old(self)@.builtins.push(
                        (name@, SpecExpr::Function(params@, body.0)),
                    ));
                    assert(self@ =~~= old(self)@.load_builtin(name@, params@, body.0).0);
                }
                Ok(())
            },
        }
    }

    /// The registered builtin under `name`, if any.
    pub fn find_builtin(&self, name: &str) -> (r: Option<&Expression>)
        ensures
            match r {
                Some(e) => self@.find_builtin(name@) == Some(e@),
                None => self@.find_builtin(name@) is None,
            },
    {
        match frame_position(&self.builtins, name) {
            Some(i) => Some(&self.builtins[i].1),
            None => None,
        }
    }

    /// Binds `name` to `var` in the oldest (global) frame, overwriting any
    /// binding of that name there: a `def` at any call depth mutates global
    /// state. Never fails.
    pub fn define_var(&mut self, name: &str, var: Expression) -> (r: Result<(), Error>)
        ensures
            final(self)@ == old(self)@.define_var(name@, var@),
            r == Ok::<(), Error>(()),
    {
        frame_write(&mut self.globals, name, var);
        proof {
            assert(self@.stack =~= old(self)@.define_var(name@, var@).stack);
            assert(self@ =~~= old(self)@.define_var(name@, var@));
        }
        Ok(())
    }

    /// Binds `name` to `var` in the newest frame, overwriting any binding
    /// of that name there. Never fails.
    pub fn push_stack(&mut self, name: &str, var: Expression) -> (r: Result<(), Error>)
        ensures
            final(self)@ == old(self)@.push_stack(name@, var@),
            r == Ok::<(), Error>(()),
    {
        let ghost target = old(self)@.push_stack(name@, var@);
        match self.locals.pop() {
            Some(mut f) => {
                frame_write(&mut f, name, var);
                self.locals.push(f);
                proof {
                    assert(stack_view(self.locals@) =~= stack_view(old(self).locals@).update(
                        old(self).locals@.len() - 1,
                        frame_store(
                            frame_view(old(self).locals@.last()@),
                            name@,
                            var@,
                        ),
                    ));
                    assert(self@.stack =~= target.stack);
                    assert(self@ =~~= target);
                }
            },
            None => {
                frame_write(&mut self.globals, name, var);
                proof {
                    assert(self@.stack =~= target.stack);
                    assert(self@ =~~= target);
                }
            },
        }
        Ok(())
    }

    /// Removes and returns the last binding of the newest frame, but only
    /// if it bears exactly `name`; otherwise reports `DataNotFound` and
    /// leaves the frame alone. This realizes the strict LIFO slot protocol
    /// native bodies drain their arguments with.
    pub fn pop_stack_if_named(&mut self, name: &str) -> (r: Result<Expression, Error>)
        ensures
            ({
                let (e2, res) = old(self)@.pop_stack_if_named(name@);
                final(self)@ == e2 && match (r, res) {
                    (Ok(v), Ok(sv)) => v@ == sv,
                    (Err(a), Err(b)) => a == b,
                    _ => false,
                }
            }),
    {
        let ghost target = old(self)@.pop_stack_if_named(name@);
        match self.locals.pop() {
            Some(mut f) => {
                let r = frame_take_last(&mut f, name);
                self.locals.push(f);
                proof {
                    assert(stack_view(self.locals@) =~= target.0.stack.skip(1));
                    assert(self@.stack =~= target.0.stack);
                    assert(self@ =~~= target.0);
                }
                r
            },
            None => {
                let r = frame_take_last(&mut self.globals, name);
                proof {
                    assert(self@.stack =~= target.0.stack);
                    assert(self@ =~~= target.0);
                }
                r
            },
        }
    }

    /// The value bound to `name`, searching frames newest to oldest and
    /// returning the newest binding. Builtins are not consulted: a bare
    /// symbol naming only a builtin resolves to nothing here.
    pub fn find_data(&self, name: &str) -> (r: Option<&Expression>)
        ensures
            match r {
                Some(e) => self@.find_data(name@) == Some(e@),
                None => self@.find_data(name@) is None,
            },
    {
        let n = self.locals.len();
        let mut j: usize = n;
        while j > 0
            invariant
                n == self.locals@.len(),
                j <= n,
                self@.find_data(name@) == stack_find_down(self@.stack, name@, j as int),
            decreases j,
    {
            j = j - 1;
            proof {
                assert(self@.stack[j + 1] == frame_view(self.locals@[j as int]@));
            }
            match frame_position(&self.locals[j], name) {
                Some(i) => {
                    proof {
                        lemma_frame_index_of(frame_view(self.locals@[j as int]@), name@, 0);
                    }
                    return Some(&self.locals[j][i].1);
                },
                None => {},
            }
        }
        proof {
            assert(self@.stack.len() >= 1);
            assert(self@.stack[0] == frame_view(self.globals@));
            assert(self@.find_data(name@) == stack_find_down(self@.stack, name@, 0));
            assert(stack_find_down(self@.stack, name@, -1) is None);
            assert(stack_find_down(self@.stack, name@, 0) == frame_find(
                frame_view(self.globals@),
                name@,
            ));
        }
        match frame_position(&self.globals, name) {
            Some(i) => {
                proof {
                    lemma_frame_index_of(frame_view(self.globals@), name@, 0);
                }
                Some(&self.globals[i].1)
            },
            None => None,
        }
    }

    /// Pushes a fresh, empty frame for a call about to be bound.
    pub(crate) fn push_frame(&mut self)
        ensures
            final(self)@ == old(self)@.push_frame(),
    {
        self.locals.push(Vec::new());
        proof {
            assert(self@.stack =~~= old(self)@.push_frame().stack);
            assert(self@ =~~= old(self)@.push_frame());
        }
    }

    /// Drops the newest frame; the global frame is never dropped.
    pub(crate) fn pop_frame(&mut self)
        ensures
            final(self)@ == old(self)@.pop_frame(),
    {
        if self.locals.len() > 0 {
            let _ = self.locals.pop();
            proof {
                assert(self@.stack =~= old(self)@.pop_frame().stack);
                assert(self@ =~~= old(self)@.pop_frame());
            }
        }
    }

    /// The frame stack of a live environment always holds at least the
    /// global frame.
    pub proof fn lemma_stack_nonempty(&self)
        ensures
            self@.stack.len() >= 1,
    {
    }

    /// How many frames the stack holds, the global frame included; the
    /// count saturates at `usize::MAX`, which no reachable stack attains.
    pub fn stack_height(&self) -> (r: usize)
        ensures
            r == if self@.stack.len() <= usize::MAX {
                self@.stack.len() as int
            } else {
                usize::MAX as int
            },
    {
        match self.locals.len().checked_add(1) {
            Some(n) => n,
            None => usize::MAX,
        }
    }

    /// How many bindings the newest frame holds.
    pub fn stack_frame_len(&self) -> (r: usize)
        ensures
            r == self@.stack.last().len(),
    {
        if self.locals.len() > 0 {
            self.locals[self.locals.len() - 1].len()
        } else {
            self.globals.len()
        }
    }
}

/// Removes and returns the last binding of a frame if it bears `name`.
fn frame_take_last(f: &mut Vec<(String, Expression)>, name: &str) -> (r: Result<Expression, Error>)
    ensures
        frame_view(old(f)@).len() == 0 ==> r == Err::<Expression, Error>(Error::DataNotFound)
            && final(f)@ == old(f)@,
        frame_view(old(f)@).len() > 0 && frame_view(old(f)@).last().0 == name@ ==> ({
            &&& frame_view(final(f)@) == frame_view(old(f)@).drop_last()
            &&& match r {
                Ok(v) => v@ == frame_view(old(f)@).last().1,
                Err(_) => false,
            }
        }),
        frame_view(old(f)@).len() > 0 && frame_view(old(f)@).last().0 != name@ ==> r == Err::<
            Expression,
            Error,
        >(Error::DataNotFound) && final(f)@ == old(f)@,
{
    let n = f.len();
    if n == 0 {
        return Err(Error::DataNotFound);
    }
    if str_eq(f[n - 1].0.as_str(), name) {
        match f.pop() {
            Some(entry) => {
                proof {
                    assert(frame_view(f@) =~= frame_view(old(f)@).drop_last());
                }
                Ok(entry.1)
            },
            None => Err(Error::DataNotFound),
        }
    } else {
        Err(Error::DataNotFound)
    }
}

} // verus!
