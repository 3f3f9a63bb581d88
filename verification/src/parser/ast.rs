use vstd::prelude::*;
use crate::executor::primitives::{
    BoolPrimitive,
    Decimal,
    DecimalView,
    FloatPrimitive,
    IntPrimitive,
    StringPrimitive,
};
use crate::lexer::token::{Token, TokenView};
use crate::text::{copy_texts, texts_view};

verus! {

/// A parsed text: its statements in order.
#[derive(Debug, PartialEq)]
pub struct Program {
    pub ast: Vec<AstNode>,
}

/// A statement: an expression, or the invocation of a command.
#[derive(Debug, PartialEq)]
pub enum AstNode {
    Expr(Expr),
    Cmd(Cmd),
}

/// A command's name and its arguments, in order.
#[derive(Debug, Clone, PartialEq)]
pub struct Cmd {
    pub name: String,
    pub args: Vec<String>,
}

/// One branch of a conditional. With `implicit_return` the value of the
/// body's last statement is the value of the branch.
#[derive(Debug, PartialEq)]
pub struct IfCondition {
    pub condition: Box<Expr>,
    pub body: Vec<AstNode>,
    pub implicit_return: bool,
}

/// An expression.
#[derive(Debug, PartialEq)]
pub enum Expr {
    NoValue,
    Int(IntPrimitive),
    Float(FloatPrimitive),
    String(StringPrimitive),
    Bool(BoolPrimitive),
    Word(String),
    VariableDeclaration { name: String, value: Box<Expr> },
    VariableAssigment { name: String, value: Box<Expr> },
    /// Arithmetic, as tokens in postfix order.
    Operation { stack: Vec<Token> },
    If { conditions: Vec<IfCondition> },
    While { condition: Box<Expr>, body: Vec<AstNode> },
}

/// The operators of arithmetic.
#[derive(Debug, Clone, Copy, PartialEq, Eq, Structural)]
pub enum Operator {
    Add,
    Subtract,
    Multiply,
    Divide,
}

/// The mathematical value of a command.
pub struct CmdView {
    pub name: Seq<char>,
    pub args: Seq<Seq<char>>,
}

/// The mathematical value of a statement.
pub enum AstNodeView {
    Expr(ExprView),
    Cmd(CmdView),
}

/// The mathematical value of a branch.
pub struct IfConditionView {
    pub condition: ExprView,
    pub body: Seq<AstNodeView>,
    pub implicit_return: bool,
}

/// The mathematical value of an expression.
pub enum ExprView {
    NoValue,
    Int(i64),
    Float(DecimalView),
    String(Seq<char>),
    Bool(bool),
    Word(Seq<char>),
    VariableDeclaration { name: Seq<char>, value: Box<ExprView> },
    VariableAssigment { name: Seq<char>, value: Box<ExprView> },
    Operation { stack: Seq<TokenView> },
    If { conditions: Seq<IfConditionView> },
    While { condition: Box<ExprView>, body: Seq<AstNodeView> },
}

impl View for Cmd {
    type V = CmdView;

    open spec fn view(&self) -> CmdView {
        CmdView { name: self.name@, args: texts_view(self.args@) }
    }
}

impl Expr {
    /// The mathematical value of this expression.
    pub open spec fn model(&self) -> ExprView
        decreases self,
    {
        match self {
            Expr::NoValue => ExprView::NoValue,
            Expr::Int(i) => ExprView::Int(i.value),
            Expr::Float(f) => ExprView::Float(f.value@),
            Expr::String(s) => ExprView::String(s.value@),
            Expr::Bool(b) => ExprView::Bool(b.value),
            Expr::Word(w) => ExprView::Word(w@),
            Expr::VariableDeclaration { name, value } => ExprView::VariableDeclaration {
                name: name@,
                value: Box::new(value.model()),
            },
            Expr::VariableAssigment { name, value } => ExprView::VariableAssigment {
                name: name@,
                value: Box::new(value.model()),
            },
            Expr::Operation { stack } => ExprView::Operation {
                stack: stack@.map_values(|t: Token| t@),
            },
            Expr::If { conditions } => ExprView::If {
                conditions: Seq::new(
                    conditions.len() as nat,
                    |i: int|
                        if 0 <= i < conditions.len() {
                            conditions[i].model()
                        } else {
                            arbitrary()
                        },
                ),
            },
            Expr::While { condition, body } => ExprView::While {
                condition: Box::new(condition.model()),
                body: Seq::new(
                    body.len() as nat,
                    |i: int|
                        if 0 <= i < body.len() {
                            body[i].model()
                        } else {
                            arbitrary()
                        },
                ),
            },
        }
    }
}

impl IfCondition {
    /// The mathematical value of this branch.
    pub open spec fn model(&self) -> IfConditionView
        decreases self,
    {
        IfConditionView {
            condition: self.condition.model(),
            body: Seq::new(
                self.body.len() as nat,
                |i: int|
                    if 0 <= i < self.body.len() {
                        self.body[i].model()
                    } else {
                        arbitrary()
                    },
            ),
            implicit_return: self.implicit_return,
        }
    }
}

impl AstNode {
    /// The mathematical value of this statement.
    pub open spec fn model(&self) -> AstNodeView
        decreases self,
    {
        match self {
            AstNode::Expr(e) => AstNodeView::Expr(e.model()),
            AstNode::Cmd(c) => AstNodeView::Cmd(c@),
        }
    }
}

impl View for Expr {
    type V = ExprView;

    open spec fn view(&self) -> ExprView {
        self.model()
    }
}

impl View for IfCondition {
    type V = IfConditionView;

    open spec fn view(&self) -> IfConditionView {
        self.model()
    }
}

impl View for AstNode {
    type V = AstNodeView;

    open spec fn view(&self) -> AstNodeView {
        self.model()
    }
}

impl Cmd {
    /// A copy of this command.
    pub fn duplicate(&self) -> (r: Cmd)
        ensures
            r@ == self@,
    {
        Cmd { name: self.name.clone(), args: copy_texts(&self.args) }
    }
}

impl Expr {
    /// A copy of this expression.
    pub fn duplicate(&self) -> (r: Expr)
        ensures
            r@ == self@,
        decreases self,
    {
        match self {
            Expr::NoValue => Expr::NoValue,
            Expr::Int(i) => Expr::Int(IntPrimitive { value: i.value }),
            Expr::Float(f) => Expr::Float(
                FloatPrimitive {
                    value: match &f.value {
                        Decimal::Written(s) => Decimal::Written(s.clone()),
                        Decimal::Bits(b) => Decimal::Bits(*b),
                    },
                },
            ),
            Expr::String(s) => Expr::String(StringPrimitive { value: s.value.clone() }),
            Expr::Bool(b) => Expr::Bool(BoolPrimitive { value: b.value }),
            Expr::Word(w) => Expr::Word(w.clone()),
            Expr::VariableDeclaration { name, value } => Expr::VariableDeclaration {
                name: name.clone(),
                value: Box::new(value.duplicate()),
            },
            Expr::VariableAssigment { name, value } => Expr::VariableAssigment {
                name: name.clone(),
                value: Box::new(value.duplicate()),
            },
            Expr::Operation { stack } => {
                let mut out: Vec<Token> = Vec::new();
                let mut i: usize = 0;
                while i < stack.len()
                    invariant
                        0 <= i <= stack.len(),
                        out@.map_values(|t: Token| t@) == stack@.map_values(|t: Token| t@).take(
                            i as int,
                        ),
                    decreases stack.len() - i,
                {
                    let ghost done = out@.map_values(|t: Token| t@);
                    let t = stack[i].duplicate();
                    proof {
                        assert(out@.push(t).map_values(|t: Token| t@) == done.push(t@));
                        assert(stack@.map_values(|t: Token| t@).take(i + 1) == stack@.map_values(
                            |t: Token| t@,
                        ).take(i as int).push(t@));
                    }
                    out.push(t);
                    i += 1;
                }
                proof {
                    assert(stack@.map_values(|t: Token| t@).take(stack.len() as int)
                        == stack@.map_values(|t: Token| t@));
                }
                Expr::Operation { stack: out }
            },
            Expr::If { conditions } => {
                let mut out: Vec<IfCondition> = Vec::new();
                let mut i: usize = 0;
                while i < conditions.len()
                    invariant
                        0 <= i <= conditions.len(),
                        decreases_to!(*self => *conditions),
                        out@.map_values(|c: IfCondition| c@) == conditions@.map_values(
                            |c: IfCondition| c@,
                        ).take(i as int),
                    decreases conditions.len() - i,
                {
                    let ghost done = out@.map_values(|c: IfCondition| c@);
                    let c = &conditions[i];
                    proof {
                        assert(decreases_to!(*conditions => conditions[i as int]));
                    }
                    let copy = IfCondition {
                        condition: Box::new(c.condition.duplicate()),
                        body: duplicate_nodes(&c.body),
                        implicit_return: c.implicit_return,
                    };
                    proof {
                        lemma_branch_view(copy);
                        lemma_branch_view(*c);
                        assert(out@.push(copy).map_values(|c: IfCondition| c@) == done.push(copy@));
                        assert(conditions@.map_values(|c: IfCondition| c@).take(i + 1)
                            == conditions@.map_values(|c: IfCondition| c@).take(i as int).push(
                            copy@,
                        ));
                    }
                    out.push(copy);
                    i += 1;
                }
                let copy = Expr::If { conditions: out };
                proof {
                    assert(conditions@.map_values(|c: IfCondition| c@).take(
                        conditions.len() as int,
                    ) == conditions@.map_values(|c: IfCondition| c@));
                    lemma_body_view(copy);
                    lemma_body_view(*self);
                }
                copy
            },
            Expr::While { condition, body } => {
                let copy = Expr::While {
                    condition: Box::new(condition.duplicate()),
                    body: duplicate_nodes(body),
                };
                proof {
                    lemma_body_view(copy);
                    lemma_body_view(*self);
                }
                copy
            },
        }
    }
}

/// A copy of a list of statements.
pub fn duplicate_nodes(nodes: &Vec<AstNode>) -> (r: Vec<AstNode>)
    ensures
        nodes_view(r@) == nodes_view(nodes@),
    decreases nodes,
{
    let mut out: Vec<AstNode> = Vec::new();
    let mut i: usize = 0;
    while i < nodes.len()
        invariant
            0 <= i <= nodes.len(),
            nodes_view(out@) == nodes_view(nodes@).take(i as int),
        decreases nodes.len() - i,
    {
        let ghost done = nodes_view(out@);
        let copy = match &nodes[i] {
            AstNode::Expr(e) => AstNode::Expr(e.duplicate()),
            AstNode::Cmd(c) => AstNode::Cmd(c.duplicate()),
        };
        proof {
            assert(nodes_view(out@.push(copy)) == done.push(copy@));
            assert(nodes_view(nodes@).take(i + 1) == nodes_view(nodes@).take(i as int).push(copy@));
        }
        out.push(copy);
        i += 1;
    }
    proof {
        assert(nodes_view(nodes@).take(nodes.len() as int) == nodes_view(nodes@));
    }
    out
}

/// The values of a list of statements.
pub open spec fn nodes_view(nodes: Seq<AstNode>) -> Seq<AstNodeView> {
    nodes.map_values(|n: AstNode| n@)
}

impl View for Program {
    type V = Seq<AstNodeView>;

    open spec fn view(&self) -> Seq<AstNodeView> {
        nodes_view(self.ast@)
    }
}

/// The value of a body is the values of its statements.
pub proof fn lemma_body_view(e: Expr)
    ensures
        e matches Expr::While { condition, body } ==> e@ == (ExprView::While {
            condition: Box::new(condition@),
            body: nodes_view(body@),
        }),
        e matches Expr::If { conditions } ==> e@ == (ExprView::If {
            conditions: conditions@.map_values(|c: IfCondition| c@),
        }),
{
    match e {
        Expr::While { condition, body } => {
            assert(e@->While_body =~= nodes_view(body@));
        },
        Expr::If { conditions } => {
            assert(e@->If_conditions =~= conditions@.map_values(|c: IfCondition| c@));
        },
        _ => {},
    }
}

/// The value of a branch's body is the values of its statements.
pub proof fn lemma_branch_view(c: IfCondition)
    ensures
        c@ == (IfConditionView {
            condition: c.condition@,
            body: nodes_view(c.body@),
            implicit_return: c.implicit_return,
        }),
{
    assert(c@.body =~= nodes_view(c.body@));
}

} // verus!
