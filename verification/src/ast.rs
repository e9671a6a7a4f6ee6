//! The abstract syntax of the surface language: modules of function and
//! static items, blocks of statements, and expressions. A host front end
//! produces these values; the compiler back end lowers them.

use vstd::prelude::*;

verus! {

/// A whole surface-language module: a list of items.
#[derive(Debug)]
pub struct Module {
    pub items: Vec<Item>,
}

/// A top-level item: a function or a static.
#[derive(Debug)]
pub enum Item {
    FunctionItem(Function),
    StaticItem(Static),
}

/// A surface-language function: name, parameters and body.
#[derive(Debug)]
pub struct Function {
    pub name: String,
    pub parameters: Vec<Variable>,
    pub body: Block,
}

/// A declared variable: its name, and whether it may be assigned to.
#[derive(Debug)]
pub struct Variable {
    pub name: String,
    pub mutable: bool,
}

/// A static item: a named, optionally atomic, initialized cell.
#[derive(Debug)]
pub struct Static {
    pub atomic: bool,
    pub name: String,
    pub value: Expression,
}

/// A block of statements.
#[derive(Debug)]
pub struct Block {
    pub statements: Vec<Statement>,
}

/// A statement of a block.
#[derive(Debug)]
pub enum Statement {
    LetStatement(Let),
    ExpressionStatement(Expression),
    LoopStatement(Loop),
    ReturnStatement(Expression),
}

/// A `let` binding: the declared variable and its initializer.
#[derive(Debug)]
pub struct Let {
    pub variable: Variable,
    pub value: Expression,
}

/// A `while` loop: its condition and its body.
#[derive(Debug)]
pub struct Loop {
    pub condition: Expression,
    pub body: Block,
}

/// An expression, layered by precedence as the surface grammar parses it.
#[derive(Debug)]
pub enum Expression {
    AssignExpression { rhs: Box<Expression>, op: Operator, lhs: Box<Expression> },
    OrExpression { rhs: Box<Expression>, op: Operator, lhs: Box<Expression> },
    AndExpression { rhs: Box<Expression>, op: Operator, lhs: Box<Expression> },
    CompareExpression { rhs: Box<Expression>, op: Operator, lhs: Box<Expression> },
    AddExpression { rhs: Box<Expression>, op: Operator, lhs: Box<Expression> },
    MulExpression { rhs: Box<Expression>, op: Operator, lhs: Box<Expression> },
    ParenExpression { expr: Box<Expression> },
    CallExpression { function: Box<Expression>, args: Vec<Expression> },
    VariableExpression { name: String },
    BlockExpression { block: Block },
    IntLiteralExpression { literal: String },
}

/// An operator token: its text, and whether it carries the checked mark.
#[derive(Debug)]
pub struct Operator {
    pub operator: String,
    pub checked: bool,
}

impl Clone for Operator {
    fn clone(&self) -> (r: Self)
        ensures
            r == *self,
    {
        Operator { operator: self.operator.clone(), checked: self.checked }
    }
}

/// The keywords of the surface language.
#[derive(Clone, Copy, PartialEq, Eq, Structural, Debug)]
pub enum Keyword {
    While,
    Fn,
    Let,
    Return,
    Atomic,
    Mut,
    Static,
}

/// A lexical token of the surface language.
#[derive(Debug)]
pub enum Token<'a> {
    Identifier(&'a str),
    Keyword(Keyword, &'a str),
    Operator(&'a str, Option<char>),
    Punct(&'a str),
    IntLiteral(&'a str),
}

} // verus!
