//! Grammar categories, the operator enumeration with its classifier, and the
//! abstract syntax tree produced by lowering a parse tree.

use vstd::prelude::*;

verus! {

/// The grammar categories (productions) that a parse-tree node can be labeled
/// with. The precedence levels run from `equality` (loosest binding) down to
/// `unary`; `NUMBER`, `BOOL_TRUE`, `BOOL_FALSE` and `grouping` are the primary
/// forms. `STRING` and `NULL` are reserved categories that the recognizer
/// never produces.
#[allow(non_camel_case_types)]
#[derive(Clone, Copy, PartialEq, Eq, Structural, Debug)]
pub enum Rule {
    program,
    EOI,
    expression,
    equality,
    comparison,
    term,
    factor,
    unary,
    grouping,
    NUMBER,
    BOOL_TRUE,
    BOOL_FALSE,
    STRING,
    NULL,
    not_equal,
    double_equal,
    triple_equal,
    greater_than,
    greater_than_equal,
    less_than,
    less_than_equal,
    plus,
    minus,
    multiply,
    divide,
    inverse,
}

/// The closed enumeration of the twelve operator kinds the language supports.
#[derive(Clone, Copy, PartialEq, Eq, Structural, Debug)]
pub enum Operator {
    NotEqual,
    DoubleEqual,
    TripleEqual,
    GreaterThan,
    GreaterThanEqual,
    LessThan,
    LessThanEqual,
    Minus,
    Plus,
    Multiply,
    Divide,
    Invert,
}

/// Whether `r` is one of the twelve operator categories, the exact domain of
/// the operator classifier.
pub open spec fn is_operator_rule(r: Rule) -> bool {
    match r {
        Rule::not_equal => true,
        Rule::double_equal => true,
        Rule::triple_equal => true,
        Rule::greater_than => true,
        Rule::greater_than_equal => true,
        Rule::less_than => true,
        Rule::less_than_equal => true,
        Rule::plus => true,
        Rule::minus => true,
        Rule::divide => true,
        Rule::multiply => true,
        Rule::inverse => true,
        _ => false,
    }
}

/// The one-to-one mapping from an operator category to its `Operator` value.
pub open spec fn sp_classify(r: Rule) -> Operator {
    match r {
        Rule::not_equal => Operator::NotEqual,
        Rule::double_equal => Operator::DoubleEqual,
        Rule::triple_equal => Operator::TripleEqual,
        Rule::greater_than => Operator::GreaterThan,
        Rule::greater_than_equal => Operator::GreaterThanEqual,
        Rule::less_than => Operator::LessThan,
        Rule::less_than_equal => Operator::LessThanEqual,
        Rule::plus => Operator::Plus,
        Rule::minus => Operator::Minus,
        Rule::divide => Operator::Divide,
        Rule::multiply => Operator::Multiply,
        Rule::inverse => Operator::Invert,
        _ => arbitrary(),
    }
}

impl Operator {
    /// The operator classifier: maps a recognized operator category to its
    /// `Operator` value. Calling it on a non-operator category would signal an
    /// internal inconsistency between the grammar and this table, so that is
    /// ruled out up front.
    pub fn from(rule: Rule) -> (op: Operator)
        requires
            is_operator_rule(rule),
        ensures
            op == sp_classify(rule),
    {
        match rule {
            Rule::not_equal => Operator::NotEqual,
            Rule::double_equal => Operator::DoubleEqual,
            Rule::triple_equal => Operator::TripleEqual,
            Rule::greater_than => Operator::GreaterThan,
            Rule::greater_than_equal => Operator::GreaterThanEqual,
            Rule::less_than => Operator::LessThan,
            Rule::less_than_equal => Operator::LessThanEqual,
            Rule::plus => Operator::Plus,
            Rule::minus => Operator::Minus,
            Rule::divide => Operator::Divide,
            Rule::multiply => Operator::Multiply,
            Rule::inverse => Operator::Invert,
            _ => unreached(),
        }
    }
}

/// An abstract syntax tree node: the precedence-free, operator-explicit tree
/// returned to callers. Numeral literals carry the exact bytes of their
/// textual form; `String` is reserved for string literals, whose lexing is
/// deliberately left out of the language for now.
#[derive(Debug, PartialEq)]
pub enum AstNode {
    String(Vec<u8>),
    Number(Vec<u8>),
    Bool(bool),
    Binary { left: Box<AstNode>, right: Box<AstNode>, operator: Operator },
    Unary { operator: Operator, right: Box<AstNode> },
    Grouping(Box<AstNode>),
}

/// The mathematical model of an AST: the same shape as `AstNode`, with literal
/// text as a byte sequence.
pub enum SpecAst {
    String(Seq<u8>),
    Number(Seq<u8>),
    Bool(bool),
    Binary { left: Box<SpecAst>, right: Box<SpecAst>, operator: Operator },
    Unary { operator: Operator, right: Box<SpecAst> },
    Grouping(Box<SpecAst>),
}

impl AstNode {
    /// The model of this AST: the same tree with every `Vec` of literal bytes
    /// replaced by its sequence view.
    pub open spec fn deep_view(self) -> SpecAst
        decreases self,
    {
        match self {
            AstNode::String(t) => SpecAst::String(t@),
            AstNode::Number(t) => SpecAst::Number(t@),
            AstNode::Bool(b) => SpecAst::Bool(b),
            AstNode::Binary { left, right, operator } => SpecAst::Binary {
                left: Box::new(left.deep_view()),
                right: Box::new(right.deep_view()),
                operator,
            },
            AstNode::Unary { operator, right } => SpecAst::Unary {
                operator,
                right: Box::new(right.deep_view()),
            },
            AstNode::Grouping(inner) => SpecAst::Grouping(Box::new(inner.deep_view())),
        }
    }
}

} // verus!
