//! The AST builder: lowering one parse-tree node into one AST node, and the
//! program driver that lowers every top-level expression of a parsed program.
//!
//! Lowering dispatches on the node's grammar category: literals become
//! leaves, a precedence level with an operator becomes a `Binary` or `Unary`
//! node, a level without one is a pass-through that contributes no node of
//! its own, and a grouping is kept as an explicit `Grouping` node.

use vstd::prelude::*;

use crate::ast::is_operator_rule;
use crate::ast::sp_classify;
use crate::ast::AstNode;
use crate::ast::Operator;
use crate::ast::Rule;
use crate::ast::SpecAst;
use crate::grammar::sp_bool;
use crate::grammar::sp_cmp_op;
use crate::grammar::sp_comparison;
use crate::grammar::sp_digits;
use crate::grammar::sp_eq_op;
use crate::grammar::sp_equality;
use crate::grammar::sp_expression;
use crate::grammar::sp_exprs;
use crate::grammar::sp_factor;
use crate::grammar::sp_factor_op;
use crate::grammar::sp_grouping;
use crate::grammar::sp_number;
use crate::grammar::sp_primary;
use crate::grammar::sp_program;
use crate::grammar::sp_term;
use crate::grammar::sp_term_op;
use crate::grammar::sp_unary;
use crate::grammar::sp_unary_op;
use crate::grammar::sp_ws;
use crate::grammar::lemma_sp_digits_bounds;
use crate::grammar::lemma_sp_ws_bounds;
use crate::grammar::sp_fail_pos;
use crate::grammar::B_DOT;
use crate::grammar::B_LPAREN;
use crate::parser::copy_bytes;
use crate::parser::ParseError;
use crate::parser::TSParser;
use crate::tree::deep_view_children;
use crate::tree::lemma_deep_view_children;
use crate::tree::ParseNode;
use crate::tree::SpecNode;

verus! {

/// Whether `r` is one of the four binary precedence levels.
pub open spec fn is_binary_level(r: Rule) -> bool {
    r == Rule::equality || r == Rule::comparison || r == Rule::term || r == Rule::factor
}

/// Whether the builder's dispatch table covers `n` and every part of it that
/// lowering reaches: the exact domain on which lowering is defined. Every
/// tree the grammar recognizer produces satisfies this
/// (`lemma_expression_lowerable`); on any other tree the grammar and the
/// dispatch table would have diverged.
pub open spec fn sp_lowerable(n: SpecNode) -> bool
    decreases n,
{
    proof {
        assert(decreases_to!(n => n.children));
    }
    if n.rule == Rule::NUMBER || n.rule == Rule::BOOL_TRUE || n.rule == Rule::BOOL_FALSE {
        true
    } else if n.rule == Rule::expression {
        n.children.len() >= 1 && sp_lowerable(n.children[0])
    } else if is_binary_level(n.rule) {
        n.children.len() >= 1 && sp_lowerable(n.children[0]) && (n.children.len() >= 2
            ==> n.children.len() >= 3 && is_operator_rule(n.children[1].rule) && sp_lowerable(
            n.children[2],
        ))
    } else if n.rule == Rule::unary {
        n.children.len() >= 1 && (if n.children[0].rule == Rule::minus || n.children[0].rule
            == Rule::inverse {
            n.children.len() >= 2 && sp_lowerable(n.children[1])
        } else {
            sp_lowerable(n.children[0])
        })
    } else if n.rule == Rule::grouping {
        n.children.len() >= 1 && sp_lowerable(n.children[0])
    } else {
        false
    }
}

/// What lowering a parse-tree node yields, category by category: the
/// mathematical form of the builder's dispatch table. It is specified only
/// on lowerable nodes.
pub open spec fn sp_lower(n: SpecNode) -> SpecAst
    decreases n,
    when sp_lowerable(n)
{
    proof {
        assert(decreases_to!(n => n.children));
    }
    if n.rule == Rule::NUMBER {
        SpecAst::Number(n.text)
    } else if n.rule == Rule::BOOL_TRUE {
        SpecAst::Bool(true)
    } else if n.rule == Rule::BOOL_FALSE {
        SpecAst::Bool(false)
    } else if n.rule == Rule::expression {
        sp_lower(n.children[0])
    } else if is_binary_level(n.rule) {
        if n.children.len() >= 2 {
            SpecAst::Binary {
                left: Box::new(sp_lower(n.children[0])),
                right: Box::new(sp_lower(n.children[2])),
                operator: sp_classify(n.children[1].rule),
            }
        } else {
            sp_lower(n.children[0])
        }
    } else if n.rule == Rule::unary {
        if n.children[0].rule == Rule::minus || n.children[0].rule == Rule::inverse {
            SpecAst::Unary {
                operator: sp_classify(n.children[0].rule),
                right: Box::new(sp_lower(n.children[1])),
            }
        } else {
            sp_lower(n.children[0])
        }
    } else if n.rule == Rule::grouping {
        SpecAst::Grouping(Box::new(sp_lower(n.children[0])))
    } else {
        arbitrary()
    }
}

/// Every equality-level match is lowerable, lies within the source, and
/// consumed at least one byte.
pub proof fn lemma_equality_lowerable(s: Seq<u8>, i: int)
    ensures
        match sp_equality(s, i) {
            Some((n, j)) => i < j <= s.len() && n.rule == Rule::equality && sp_lowerable(n),
            None => true,
        },
    decreases s.len() - i, 6int,
{
    match sp_comparison(s, i) {
        None => {},
        Some((l, j)) => {
            lemma_comparison_lowerable(s, i);
            if i < j && j <= s.len() {
                let k = sp_ws(s, j);
                match sp_eq_op(s, k) {
                    None => {},
                    Some((o, j2)) => {
                        let k2 = sp_ws(s, j2);
                        if i < k2 && k2 <= s.len() {
                            lemma_comparison_lowerable(s, k2);
                        }
                    },
                }
            }
        },
    }
}

/// Every comparison-level match is lowerable, lies within the source, and
/// consumed at least one byte.
#[verifier::rlimit(60)]
pub proof fn lemma_comparison_lowerable(s: Seq<u8>, i: int)
    ensures
        match sp_comparison(s, i) {
            Some((n, j)) => i < j <= s.len() && n.rule == Rule::comparison && sp_lowerable(n),
            None => true,
        },
    decreases s.len() - i, 5int,
{
    match sp_term(s, i) {
        None => {},
        Some((l, j)) => {
            lemma_term_lowerable(s, i);
            if i < j && j <= s.len() {
                let k = sp_ws(s, j);
                match sp_cmp_op(s, k) {
                    None => {},
                    Some((o, j2)) => {
                        let k2 = sp_ws(s, j2);
                        if i < k2 && k2 <= s.len() {
                            lemma_term_lowerable(s, k2);
                        }
                    },
                }
            }
        },
    }
}

/// Every term-level match is lowerable, lies within the source, and consumed
/// at least one byte.
pub proof fn lemma_term_lowerable(s: Seq<u8>, i: int)
    ensures
        match sp_term(s, i) {
            Some((n, j)) => i < j <= s.len() && n.rule == Rule::term && sp_lowerable(n),
            None => true,
        },
    decreases s.len() - i, 4int,
{
    match sp_factor(s, i) {
        None => {},
        Some((l, j)) => {
            lemma_factor_lowerable(s, i);
            if i < j && j <= s.len() {
                let k = sp_ws(s, j);
                match sp_term_op(s, k) {
                    None => {},
                    Some((o, j2)) => {
                        let k2 = sp_ws(s, j2);
                        if i < k2 && k2 <= s.len() {
                            lemma_factor_lowerable(s, k2);
                        }
                    },
                }
            }
        },
    }
}

/// Every factor-level match is lowerable, lies within the source, and
/// consumed at least one byte.
pub proof fn lemma_factor_lowerable(s: Seq<u8>, i: int)
    ensures
        match sp_factor(s, i) {
            Some((n, j)) => i < j <= s.len() && n.rule == Rule::factor && sp_lowerable(n),
            None => true,
        },
    decreases s.len() - i, 3int,
{
    match sp_unary(s, i) {
        None => {},
        Some((l, j)) => {
            lemma_unary_lowerable(s, i);
            if i < j && j <= s.len() {
                let k = sp_ws(s, j);
                match sp_factor_op(s, k) {
                    None => {},
                    Some((o, j2)) => {
                        let k2 = sp_ws(s, j2);
                        if i < k2 && k2 <= s.len() {
                            lemma_unary_lowerable(s, k2);
                        }
                    },
                }
            }
        },
    }
}

/// Every unary-level match is lowerable, lies within the source, and
/// consumed at least one byte.
pub proof fn lemma_unary_lowerable(s: Seq<u8>, i: int)
    ensures
        match sp_unary(s, i) {
            Some((n, j)) => i < j <= s.len() && n.rule == Rule::unary && sp_lowerable(n),
            None => true,
        },
    decreases s.len() - i, 2int,
{
    match sp_unary_op(s, i) {
        Some((o, j)) => {
            let k = sp_ws(s, j);
            if i < k && k <= s.len() {
                lemma_unary_lowerable(s, k);
            }
        },
        None => {
            lemma_primary_lowerable(s, i);
        },
    }
}

/// Every primary-level match is a literal or a grouping, is lowerable, lies
/// within the source, and consumed at least one byte.
pub proof fn lemma_primary_lowerable(s: Seq<u8>, i: int)
    ensures
        match sp_primary(s, i) {
            Some((n, j)) => i < j <= s.len() && sp_lowerable(n) && (n.rule == Rule::NUMBER
                || n.rule == Rule::BOOL_TRUE || n.rule == Rule::BOOL_FALSE || n.rule
                == Rule::grouping),
            None => true,
        },
    decreases s.len() - i, 1int,
{
    match sp_number(s, i) {
        Some((n, j)) => {
            if 0 <= i && i <= s.len() {
                lemma_sp_digits_bounds(s, i);
                let j0 = sp_digits(s, i);
                if j0 < s.len() && s[j0] == B_DOT {
                    if 0 <= j0 + 1 && j0 + 1 <= s.len() {
                        lemma_sp_digits_bounds(s, j0 + 1);
                    }
                }
            }
        },
        None => match sp_bool(s, i) {
            Some(_) => {},
            None => {
                lemma_grouping_lowerable(s, i);
            },
        },
    }
}

/// Every grouping match is lowerable, lies within the source, and consumed
/// at least one byte.
pub proof fn lemma_grouping_lowerable(s: Seq<u8>, i: int)
    ensures
        match sp_grouping(s, i) {
            Some((n, j)) => i < j <= s.len() && n.rule == Rule::grouping && sp_lowerable(n),
            None => true,
        },
    decreases s.len() - i, 0int,
{
    if 0 <= i && i < s.len() && s[i] == B_LPAREN {
        let k = sp_ws(s, i + 1);
        if i < k && k <= s.len() {
            lemma_expression_lowerable(s, k);
            match sp_expression(s, k) {
                None => {},
                Some((e, j)) => {
                    lemma_sp_ws_bounds(s, j);
                },
            }
        }
    }
}

/// Every expression match is lowerable, lies within the source, and consumed
/// at least one byte.
pub proof fn lemma_expression_lowerable(s: Seq<u8>, i: int)
    ensures
        match sp_expression(s, i) {
            Some((n, j)) => i < j <= s.len() && n.rule == Rule::expression && sp_lowerable(n),
            None => true,
        },
    decreases s.len() - i, 7int,
{
    lemma_equality_lowerable(s, i);
}

/// In a recognized program, every expression child is lowerable: the grammar
/// and the builder's dispatch table are in lock-step.
pub proof fn lemma_program_lowerable(s: Seq<u8>)
    ensures
        match sp_program(s) {
            Some(root) => root.rule == Rule::program && forall|k: int|
                0 <= k < root.children.len() && #[trigger] root.children[k].rule
                    == Rule::expression ==> sp_lowerable(root.children[k]),
            None => true,
        },
{
    lemma_exprs_lowerable(s, 0);
}

/// Every expression in the list recognized from position `i` on is an
/// expression-category node and is lowerable.
pub proof fn lemma_exprs_lowerable(s: Seq<u8>, i: int)
    ensures
        match sp_exprs(s, i) {
            Some(es) => forall|k: int|
                0 <= k < es.len() ==> (#[trigger] es[k]).rule == Rule::expression
                    && sp_lowerable(es[k]),
            None => true,
        },
    decreases s.len() - i,
{
    let k = sp_ws(s, i);
    if 0 <= i && i <= k && k <= s.len() && k < s.len() {
        lemma_expression_lowerable(s, k);
        match sp_expression(s, k) {
            None => {},
            Some((n, j)) => {
                if k < j && j <= s.len() {
                    lemma_exprs_lowerable(s, j);
                }
            },
        }
    }
}


/// Lowers one parse-tree node into one AST node, dispatching on its grammar
/// category: literals become leaves, a precedence level with an operator
/// becomes a `Binary` or `Unary` node, a pass-through level hands its single
/// operand through unchanged, and a grouping is kept as an explicit
/// `Grouping` node.
pub fn parse_expression(pair: &ParseNode) -> (r: AstNode)
    requires
        sp_lowerable(pair.deep_view()),
    ensures
        r.deep_view() == sp_lower(pair.deep_view()),
    decreases *pair,
{
    proof {
        lemma_deep_view_children(pair.children@, 0);
        assert(decreases_to!(*pair => pair.children));
        assert(decreases_to!(pair.children => pair.children@));
    }
    match pair.as_rule() {
        Rule::STRING => unreached(),
        Rule::NUMBER => AstNode::Number(copy_bytes(&pair.text)),
        Rule::BOOL_TRUE => AstNode::Bool(true),
        Rule::BOOL_FALSE => AstNode::Bool(false),
        Rule::NULL => unreached(),
        Rule::expression => parse_expression(&pair.children[0]),
        Rule::equality | Rule::comparison | Rule::term | Rule::factor => {
            if pair.children.len() >= 2 {
                let left = parse_expression(&pair.children[0]);
                let operator = Operator::from(pair.children[1].rule);
                let right = parse_expression(&pair.children[2]);
                AstNode::Binary { left: Box::new(left), right: Box::new(right), operator }
            } else {
                // The level matched without an operator: a pass-through that
                // contributes no node of its own.
                parse_expression(&pair.children[0])
            }
        },
        Rule::unary => {
            let first = &pair.children[0];
            if first.rule == Rule::minus || first.rule == Rule::inverse {
                let right = parse_expression(&pair.children[1]);
                AstNode::Unary { operator: Operator::from(first.rule), right: Box::new(right) }
            } else {
                // No prefix operator at this level: a pass-through.
                parse_expression(first)
            }
        },
        Rule::grouping => AstNode::Grouping(Box::new(parse_expression(&pair.children[0]))),
        _ => unreached(),
    }
}

/// The ASTs of the expression-category nodes of `cs` from index `i` on, in
/// order; nodes of any other category contribute nothing.
pub open spec fn sp_asts(cs: Seq<SpecNode>, i: int) -> Seq<SpecAst>
    decreases cs.len() - i,
{
    if i < 0 || i >= cs.len() {
        Seq::empty()
    } else if cs[i].rule == Rule::expression {
        Seq::empty().push(sp_lower(cs[i])) + sp_asts(cs, i + 1)
    } else {
        sp_asts(cs, i + 1)
    }
}

/// The whole pipeline, as mathematics: what parsing a source text yields,
/// when it yields anything.
pub open spec fn sp_parse(s: Seq<u8>) -> Option<Seq<SpecAst>> {
    match sp_program(s) {
        None => None,
        Some(root) => Some(sp_asts(root.children, 0)),
    }
}

/// The models of a vector of ASTs, in order.
pub open spec fn deep_view_asts(v: Seq<AstNode>) -> Seq<SpecAst> {
    Seq::new(v.len(), |k: int| v[k].deep_view())
}

/// Parses a whole program: recognizes the source against the grammar
/// definition, then lowers each top-level expression, yielding one AST per
/// expression in source order. A malformed source yields the parse failure
/// unchanged; the result is exactly `sp_parse` of the source.
#[verifier::rlimit(100)]
#[verifier::spinoff_prover]
pub fn parse(source: &Vec<u8>) -> (r: Result<Vec<AstNode>, ParseError>)
    ensures
        match r {
            Ok(ast) => sp_parse(source@) == Some(deep_view_asts(ast@)),
            Err(e) => sp_parse(source@) is None && e.pos as int == sp_fail_pos(source@, 0)
                && e.expected@ == seq![Rule::expression],
        },
{
    let mut ast: Vec<AstNode> = Vec::new();
    let program = match TSParser::parse(source) {
        Ok(p) => p,
        Err(e) => {
            return Err(e);
        },
    };
    let ghost rootv = program.deep_view();
    proof {
        lemma_program_lowerable(source@);
        lemma_deep_view_children(program.children@, 0);
        assert(sp_asts(rootv.children, 0) =~= deep_view_asts(ast@) + sp_asts(rootv.children, 0));
    }
    let n = program.children.len();
    let mut idx: usize = 0;
    while idx < n
        invariant
            idx <= n,
            n == program.children.len(),
            rootv == program.deep_view(),
            sp_program(source@) == Some(rootv),
            rootv.children.len() == n as int,
            forall|q: int| 0 <= q < n ==> rootv.children[q] == program.children@[q].deep_view(),
            forall|q: int|
                0 <= q < n && (#[trigger] rootv.children[q]).rule == Rule::expression
                    ==> sp_lowerable(rootv.children[q]),
            sp_asts(rootv.children, 0) == deep_view_asts(ast@) + sp_asts(
                rootv.children,
                idx as int,
            ),
        decreases n - idx,
    {
        let child = &program.children[idx];
        let ghost astv = ast@;
        match child.as_rule() {
            Rule::expression => {
                let node = parse_expression(child);
                ast.push(node);
                proof {
                    assert(deep_view_asts(ast@) =~= deep_view_asts(astv).push(
                        sp_lower(rootv.children[idx as int]),
                    ));
                    assert(sp_asts(rootv.children, 0) =~= deep_view_asts(ast@) + sp_asts(
                        rootv.children,
                        idx as int + 1,
                    ));
                }
            },
            _ => {
                proof {
                    assert(sp_asts(rootv.children, idx as int) == sp_asts(
                        rootv.children,
                        idx as int + 1,
                    ));
                }
            },
        }
        idx = idx + 1;
    }
    proof {
        assert(sp_asts(rootv.children, n as int) == Seq::<SpecAst>::empty());
        assert(sp_asts(rootv.children, 0) =~= deep_view_asts(ast@));
    }
    Ok(ast)
}

} // verus!
