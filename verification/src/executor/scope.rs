use vstd::prelude::*;
use crate::executor::executor::ExecutorError;
use crate::parser::ast::{Expr, ExprView};
use crate::text::same_text;

verus! {

/// A name and the value bound to it.
#[derive(Debug, PartialEq)]
pub struct Variable {
    pub name: String,
    pub value: Expr,
}

/// The mathematical value of a variable.
pub struct VariableView {
    pub name: Seq<char>,
    pub value: ExprView,
}

impl View for Variable {
    type V = VariableView;

    open spec fn view(&self) -> VariableView {
        VariableView { name: self.name@, value: self.value@ }
    }
}

/// The bindings of one scope, in the order of their declaration.
pub type Frame = Seq<VariableView>;

/// The values of a list of variables.
pub open spec fn frame_view(variables: Seq<Variable>) -> Frame {
    variables.map_values(|v: Variable| v@)
}

/// The index of the first binding of `name` in a frame, or the frame's length.
pub open spec fn position(frame: Frame, name: Seq<char>) -> int
    decreases frame.len(),
{
    if frame.len() == 0 || frame[0].name == name {
        0
    } else {
        1 + position(frame.drop_first(), name)
    }
}

/// Whether a frame binds `name`.
pub open spec fn binds(frame: Frame, name: Seq<char>) -> bool {
    position(frame, name) < frame.len()
}

/// The value that a chain of scopes, current scope first, gives to
/// `name`: that of the first scope that binds it.
pub open spec fn lookup(chain: Seq<Frame>, name: Seq<char>) -> Option<ExprView>
    decreases chain.len(),
{
    if chain.len() == 0 {
        None
    } else if binds(chain[0], name) {
        Some(chain[0][position(chain[0], name)].value)
    } else {
        lookup(chain.drop_first(), name)
    }
}

/// The chain after `name` got a new value in the first scope that binds
/// it; nothing where no scope binds it.
pub open spec fn overwritten(chain: Seq<Frame>, name: Seq<char>, value: ExprView) -> Option<
    Seq<Frame>,
>
    decreases chain.len(),
{
    if chain.len() == 0 {
        None
    } else if binds(chain[0], name) {
        Some(
            chain.update(
                0,
                chain[0].update(position(chain[0], name), VariableView { name, value }),
            ),
        )
    } else {
        match overwritten(chain.drop_first(), name, value) {
            Some(rest) => Some(seq![chain[0]] + rest),
            None => None,
        }
    }
}

/// The chain after `name` was declared in the current scope; nothing where
/// the current scope binds it already.
pub open spec fn declared(chain: Seq<Frame>, name: Seq<char>, value: ExprView) -> Option<
    Seq<Frame>,
> {
    if chain.len() == 0 || binds(chain[0], name) {
        None
    } else {
        Some(chain.update(0, chain[0].push(VariableView { name, value })))
    }
}

/// The chain with a new, empty scope in front of it.
pub open spec fn entered(chain: Seq<Frame>) -> Seq<Frame> {
    seq![Seq::<VariableView>::empty()] + chain
}

/// The chain without its current scope; the chain itself where that is its only one.
pub open spec fn left(chain: Seq<Frame>) -> Seq<Frame> {
    if chain.len() > 1 {
        chain.drop_first()
    } else {
        chain
    }
}

/// The position of a name lies within the frame or at its end, and no
/// binding before it has the name.
pub proof fn lemma_position_bounds(frame: Frame, name: Seq<char>)
    ensures
        0 <= position(frame, name) <= frame.len(),
        position(frame, name) < frame.len() ==> frame[position(frame, name)].name == name,
        forall|i: int| 0 <= i < position(frame, name) ==> (#[trigger] frame[i]).name != name,
    decreases frame.len(),
{
    if frame.len() == 0 || frame[0].name == name {
    } else {
        lemma_position_bounds(frame.drop_first(), name);
        assert forall|i: int| 0 <= i < position(frame, name) implies (#[trigger] frame[i]).name
            != name by {
            if i > 0 {
                assert(frame[i] == frame.drop_first()[i - 1]);
            }
        }
    }
}

/// A scope: its own variables, and the scope that it shadows, if any. A
/// scope owns the one that it shadows for as long as it lives.
#[derive(Debug, PartialEq)]
pub struct Scope {
    pub variables: Vec<Variable>,
    pub shadow: Option<Box<Scope>>,
}

impl Scope {
    /// The chain of frames that this scope begins, its own frame first.
    pub open spec fn chain(&self) -> Seq<Frame>
        decreases self,
    {
        seq![frame_view(self.variables@)] + match &self.shadow {
            Some(s) => s.chain(),
            None => Seq::empty(),
        }
    }

    /// Creates a scope without variables that shadows nothing.
    pub fn new() -> (r: Self)
        ensures
            r@ == seq![Seq::<VariableView>::empty()],
    {
        let r = Self { variables: Vec::new(), shadow: None };
        proof {
            assert(frame_view(r.variables@) == Seq::<VariableView>::empty());
            assert(r.chain() == seq![Seq::<VariableView>::empty()]);
        }
        r
    }

    /// Creates the scope that a body under `parent_scope` starts with: it
    /// has no variables and shadows nothing yet.
    pub fn from_parent(parent_scope: &Scope) -> (r: Self)
        ensures
            r@ == seq![Seq::<VariableView>::empty()],
    {
        Self::new()
    }

    /// Makes this scope shadow `scope`: what this scope does not bind is
    /// read and overwritten there.
    pub fn shadow_scope(&mut self, scope: Scope)
        ensures
            final(self)@ == seq![old(self)@[0]] + scope@,
    {
        self.shadow = Some(Box::new(scope));
        proof {
            assert(self.chain() == seq![frame_view(self.variables@)] + scope.chain());
            assert(old(self).chain()[0] == frame_view(old(self).variables@));
        }
    }

    /// Gives up this scope and hands back the scope that it shadowed.
    pub fn into_shadowed(self) -> (r: Option<Scope>)
        ensures
            match r {
                Some(s) => self@.len() > 1 && s@ == self@.drop_first(),
                None => self@.len() == 1,
            },
    {
        proof {
            self.lemma_chain_length();
        }
        match self.shadow {
            Some(s) => {
                proof {
                    assert(self.chain().drop_first() == s.chain());
                    s.lemma_chain_length();
                }
                Some(*s)
            },
            None => None,
        }
    }

    /// A chain has at least the frame of its first scope.
    pub proof fn lemma_chain_length(&self)
        ensures
            self@.len() >= 1,
            self@[0] == frame_view(self.variables@),
    {
    }

    /// The index of the variable `name` among this scope's own, if it is there.
    pub fn find(&self, name: &String) -> (r: Option<usize>)
        ensures
            match r {
                Some(i) => i == position(self@[0], name@) && i < self.variables.len(),
                None => !binds(self@[0], name@),
            },
    {
        let ghost frame = frame_view(self.variables@);
        let mut i: usize = 0;
        proof {
            assert(frame.skip(0) == frame);
            lemma_position_bounds(frame, name@);
        }
        while i < self.variables.len()
            invariant
                0 <= i <= self.variables.len(),
                frame == frame_view(self.variables@),
                position(frame, name@) == i + position(frame.skip(i as int), name@),
            decreases self.variables.len() - i,
        {
            proof {
                assert(frame.skip(i as int)[0] == frame[i as int]);
                assert(frame.skip(i as int).drop_first() == frame.skip(i + 1));
                lemma_position_bounds(frame.skip(i + 1), name@);
            }
            if same_text(&self.variables[i].name, name) {
                return Some(i);
            }
            i += 1;
        }
        None
    }

    /// Declares a variable in this scope.
    pub fn push(&mut self, var: Variable) -> (r: Result<(), ExecutorError>)
        ensures
            match r {
                Ok(()) => declared(old(self)@, var.name@, var.value@) == Some(final(self)@),
                Err(e) => e == ExecutorError::Duplicate && declared(
                    old(self)@,
                    var.name@,
                    var.value@,
                ) is None && final(self)@ == old(self)@,
            },
    {
        match self.find(&var.name) {
            Some(_) => Err(ExecutorError::Duplicate),
            None => {
                let ghost before = frame_view(self.variables@);
                let ghost rest = self.chain().drop_first();
                proof {
                    assert(self.chain() == seq![before] + rest);
                }
                self.variables.push(var);
                proof {
                    assert(frame_view(self.variables@) == before.push(var@));
                    assert(self.chain() == seq![before.push(var@)] + rest);
                    assert(self.chain() == (seq![before] + rest).update(0, before.push(var@)));
                }
                Ok(())
            },
        }
    }

    /// Gives a declared variable a new value: in this scope, or in the
    /// nearest of the scopes it shadows that has the variable.
    pub fn overwrite(&mut self, name: String, value: Expr) -> (r: Result<(), ExecutorError>)
        ensures
            match r {
                Ok(()) => overwritten(old(self)@, name@, value@) == Some(final(self)@),
                Err(e) => e == ExecutorError::NotFound && overwritten(old(self)@, name@, value@)
                    is None && final(self)@ == old(self)@,
            },
        decreases old(self)@.len(),
    {
        let ghost before = frame_view(self.variables@);
        let ghost rest = self.chain().drop_first();
        let ghost whole = self.chain();
        proof {
            assert(whole == seq![before] + rest);
            assert(whole[0] == before);
        }
        match self.find(&name) {
            Some(i) => {
                let var = Variable { name, value };
                self.variables.set(i, var);
                proof {
                    assert(frame_view(self.variables@) == before.update(i as int, var@));
                    assert(self.chain() == seq![before.update(i as int, var@)] + rest);
                    assert(self.chain() == whole.update(0, before.update(i as int, var@)));
                }
                Ok(())
            },
            None => {
                if self.shadow.is_none() {
                    proof {
                        assert(rest == Seq::<Frame>::empty());
                        assert(overwritten(rest, name@, value@) is None);
                    }
                    return Err(ExecutorError::NotFound);
                }
                let mut inner = self.shadow.take().unwrap();
                proof {
                    assert(rest == inner.chain());
                    inner.lemma_chain_length();
                }
                let r = inner.overwrite(name, value);
                let ghost after = inner.chain();
                self.shadow = Some(inner);
                proof {
                    assert(self.chain() == seq![before] + after);
                }
                r
            },
        }
    }

    /// Looks a variable up in this scope and then in the scopes it shadows.
    pub fn lookup(&self, var: String) -> (r: Option<Variable>)
        ensures
            match r {
                Some(v) => lookup(self@, var@) == Some(v@.value) && v@.name == var@,
                None => lookup(self@, var@) is None,
            },
        decreases self,
    {
        proof {
            assert(self.chain()[0] == frame_view(self.variables@));
        }
        match self.find(&var) {
            Some(i) => {
                proof {
                    lemma_position_bounds(self@[0], var@);
                    assert(self@[0][i as int] == self.variables@[i as int]@);
                }
                Some(Variable { name: var, value: self.variables[i].value.duplicate() })
            },
            None => match &self.shadow {
                Some(s) => {
                    proof {
                        assert(self.chain().drop_first() == s.chain());
                        assert(lookup(self@, var@) == lookup(s@, var@));
                    }
                    s.lookup(var)
                },
                None => {
                    proof {
                        assert(self.chain().drop_first() == Seq::<Frame>::empty());
                        assert(lookup(self@.drop_first(), var@) is None);
                    }
                    None
                },
            },
        }
    }

    /// Puts a new, empty scope in front of this one: `self` becomes the new
    /// scope and shadows what it was.
    pub fn enter(&mut self)
        ensures
            final(self)@ == entered(old(self)@),
    {
        let mut outer = Scope::new();
        std::mem::swap(self, &mut outer);
        self.shadow_scope(outer);
    }

    /// Drops the current scope: `self` becomes the scope that it shadowed.
    /// A scope that shadows nothing stays as it is.
    pub fn leave(&mut self)
        ensures
            final(self)@ == left(old(self)@),
    {
        let mut inner = Scope::new();
        std::mem::swap(self, &mut inner);
        proof {
            inner.lemma_chain_length();
        }
        if inner.shadow.is_some() {
            proof {
                inner.shadow->0.lemma_chain_length();
                assert(inner.chain().len() > 1);
            }
            match inner.into_shadowed() {
                Some(outer) => {
                    *self = outer;
                },
                None => {},
            }
        } else {
            proof {
                assert(inner.chain() == seq![frame_view(inner.variables@)]);
            }
            *self = inner;
        }
    }
}

impl View for Scope {
    type V = Seq<Frame>;

    open spec fn view(&self) -> Seq<Frame> {
        self.chain()
    }
}

} // verus!
