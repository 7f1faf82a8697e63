//! The laws the library states of itself: what lowering yields for each
//! operator form, that pass-through levels collapse without a trace, that
//! grouping is kept distinct, that a bare numeral parses to exactly its
//! `Number` leaf, and that the pipeline is deterministic.

use vstd::prelude::*;

use crate::ast::sp_classify;
use crate::ast::Rule;
use crate::ast::SpecAst;
use crate::builder::is_binary_level;
use crate::builder::lemma_primary_lowerable;
use crate::builder::sp_asts;
use crate::builder::sp_lower;
use crate::builder::sp_lowerable;
use crate::builder::sp_parse;
use crate::grammar::is_digit;
use crate::grammar::sp_comparison;
use crate::grammar::sp_digits;
use crate::grammar::sp_equality;
use crate::grammar::sp_expression;
use crate::grammar::sp_exprs;
use crate::grammar::sp_factor;
use crate::grammar::kw_false;
use crate::grammar::kw_true;
use crate::grammar::sp_bool;
use crate::grammar::sp_match;
use crate::grammar::sp_number;
use crate::grammar::sp_primary;
use crate::grammar::sp_program;
use crate::grammar::sp_term;
use crate::grammar::sp_unary;
use crate::grammar::sp_unary_op;
use crate::grammar::sp_ws;
use crate::grammar::B_BANG;
use crate::grammar::B_DOT;
use crate::grammar::B_F;
use crate::grammar::B_MINUS;
use crate::grammar::B_T;
use crate::tree::SpecNode;

verus! {

/// For every match of a binary precedence level in which an operator
/// occurred, lowering yields exactly the `Binary` node of the lowered left
/// operand, the classified operator, and the lowered right operand.
pub proof fn lemma_binary_lowering(n: SpecNode)
    requires
        is_binary_level(n.rule),
        sp_lowerable(n),
        n.children.len() >= 2,
    ensures
        sp_lower(n) == (SpecAst::Binary {
            left: Box::new(sp_lower(n.children[0])),
            right: Box::new(sp_lower(n.children[2])),
            operator: sp_classify(n.children[1].rule),
        }),
{
}

/// For every unary-level match in which a prefix operator occurred, lowering
/// yields exactly the `Unary` node of the classified operator and the
/// lowered operand.
pub proof fn lemma_unary_lowering(n: SpecNode)
    requires
        n.rule == Rule::unary,
        sp_lowerable(n),
        n.children[0].rule == Rule::minus || n.children[0].rule == Rule::inverse,
    ensures
        sp_lower(n) == (SpecAst::Unary {
            operator: sp_classify(n.children[0].rule),
            right: Box::new(sp_lower(n.children[1])),
        }),
{
}

/// The number of nodes of an AST.
pub open spec fn ast_size(a: SpecAst) -> nat
    decreases a,
{
    match a {
        SpecAst::String(_) => 1,
        SpecAst::Number(_) => 1,
        SpecAst::Bool(_) => 1,
        SpecAst::Binary { left, right, operator } => 1 + ast_size(*left) + ast_size(*right),
        SpecAst::Unary { operator, right } => 1 + ast_size(*right),
        SpecAst::Grouping(inner) => 1 + ast_size(*inner),
    }
}

/// Lowering a grouping yields exactly a `Grouping` around the lowered inner
/// expression, and that node is distinct from the lowered inner expression
/// alone: explicit parenthesization is never collapsed away.
pub proof fn lemma_grouping_lowering(n: SpecNode)
    requires
        n.rule == Rule::grouping,
        sp_lowerable(n),
    ensures
        sp_lower(n) == SpecAst::Grouping(Box::new(sp_lower(n.children[0]))),
        sp_lower(n) != sp_lower(n.children[0]),
{
    let inner = sp_lower(n.children[0]);
    assert(ast_size(SpecAst::Grouping(Box::new(inner))) == 1 + ast_size(inner));
}

/// A pass-through match — a precedence level in which no operator occurred,
/// or the expression wrapper — lowers to exactly what its single operand
/// lowers to: no spurious node is added.
pub proof fn lemma_pass_through(n: SpecNode)
    requires
        sp_lowerable(n),
        n.children.len() == 1,
        is_binary_level(n.rule) || n.rule == Rule::expression || (n.rule == Rule::unary
            && n.children[0].rule != Rule::minus && n.children[0].rule != Rule::inverse),
    ensures
        sp_lower(n) == sp_lower(n.children[0]),
{
}

/// The parsing pipeline is deterministic: two parses of one and the same
/// source text are structurally identical.
pub proof fn lemma_parse_deterministic(
    s: Seq<u8>,
    r1: Option<Seq<SpecAst>>,
    r2: Option<Seq<SpecAst>>,
)
    requires
        r1 == sp_parse(s),
        r2 == sp_parse(s),
    ensures
        r1 == r2,
{
}

/// Every byte of `t` from position `a` (inclusive) to `b` (exclusive) is a
/// digit.
pub open spec fn all_digits(t: Seq<u8>, a: int, b: int) -> bool {
    forall|k: int| a <= k < b ==> is_digit(#[trigger] t[k])
}

/// Whether `t` is a valid numeral literal: one or more digits, optionally
/// followed by a point and one or more digits.
pub open spec fn is_numeral(t: Seq<u8>) -> bool {
    (t.len() >= 1 && all_digits(t, 0, t.len() as int)) || (exists|d: int|
        1 <= d < t.len() - 1 && all_digits(t, 0, d) && t[d] == B_DOT && all_digits(
            t,
            d + 1,
            t.len() as int,
        ))
}

/// A run of digits ends exactly at the first non-digit.
proof fn lemma_digits_run(t: Seq<u8>, i: int, d: int)
    requires
        0 <= i <= d <= t.len(),
        all_digits(t, i, d),
        d == t.len() || !is_digit(t[d]),
    ensures
        sp_digits(t, i) == d,
    decreases d - i,
{
    if i < d {
        lemma_digits_run(t, i + 1, d);
    }
}

/// When the whole source is a single primary match — a literal or a
/// grouping, with nothing before it and nothing after it — the program is
/// exactly one expression, and it lowers to the lowered primary alone: the
/// pass-through chain of precedence levels above it leaves no trace.
#[verifier::rlimit(100)]
#[verifier::spinoff_prover]
proof fn lemma_single_primary_parse(t: Seq<u8>, p: SpecNode)
    requires
        sp_ws(t, 0) == 0,
        sp_unary_op(t, 0) is None,
        sp_primary(t, 0) == Some((p, t.len() as int)),
    ensures
        sp_parse(t) == Some(seq![sp_lower(p)]),
{
    let len = t.len() as int;
    lemma_primary_lowerable(t, 0);
    assert(0 < len && sp_lowerable(p));
    assert(t.subrange(0, len) =~= t);
    // Nothing stands past the match: every trailing attempt fails.
    assert(sp_ws(t, len) == len);
    let u = SpecNode { rule: Rule::unary, children: seq![p], text: t };
    assert(sp_unary(t, 0) == Some((u, len)));
    let f = SpecNode { rule: Rule::factor, children: seq![u], text: t };
    assert(sp_factor(t, 0) == Some((f, len)));
    let tm = SpecNode { rule: Rule::term, children: seq![f], text: t };
    assert(sp_term(t, 0) == Some((tm, len)));
    let c = SpecNode { rule: Rule::comparison, children: seq![tm], text: t };
    assert(sp_comparison(t, 0) == Some((c, len)));
    let q = SpecNode { rule: Rule::equality, children: seq![c], text: t };
    assert(sp_equality(t, 0) == Some((q, len)));
    let e = SpecNode { rule: Rule::expression, children: seq![q], text: t };
    assert(sp_expression(t, 0) == Some((e, len)));
    // The program is that one expression.
    assert(sp_exprs(t, len) == Some(Seq::<SpecNode>::empty()));
    assert(sp_exprs(t, 0) == Some(Seq::empty().push(e)));
    let eoi = SpecNode::leaf(Rule::EOI, Seq::empty());
    let root = SpecNode { rule: Rule::program, children: seq![e, eoi], text: t };
    assert(Seq::empty().push(e).push(eoi) =~= seq![e, eoi]);
    assert(sp_program(t) == Some(root));
    // Lowering collapses the pass-through chain to the lowered primary.
    assert(sp_lowerable(u));
    assert(sp_lowerable(f));
    assert(sp_lowerable(tm));
    assert(sp_lowerable(c));
    assert(sp_lowerable(q));
    assert(sp_lowerable(e));
    assert(sp_lower(u) == sp_lower(p));
    assert(sp_lower(f) == sp_lower(p));
    assert(sp_lower(tm) == sp_lower(p));
    assert(sp_lower(c) == sp_lower(p));
    assert(sp_lower(q) == sp_lower(p));
    assert(sp_lower(e) == sp_lower(p));
    assert(sp_asts(root.children, 2) == Seq::<SpecAst>::empty());
    assert(sp_asts(root.children, 1) == Seq::<SpecAst>::empty());
    assert(sp_asts(root.children, 0) =~= seq![sp_lower(p)]);
}

/// Parsing a source that is exactly one valid numeral yields exactly one
/// AST: the `Number` leaf carrying the numeral's text, with no spurious
/// wrapper around it.
#[verifier::rlimit(100)]
#[verifier::spinoff_prover]
pub proof fn lemma_numeral_parse(t: Seq<u8>)
    requires
        is_numeral(t),
    ensures
        sp_parse(t) == Some(seq![SpecAst::Number(t)]),
{
    let len = t.len() as int;
    // The numeral token covers the whole source.
    if t.len() >= 1 && all_digits(t, 0, len) {
        lemma_digits_run(t, 0, len);
    } else {
        let d = choose|d: int|
            1 <= d < t.len() - 1 && all_digits(t, 0, d) && t[d] == B_DOT && all_digits(
                t,
                d + 1,
                len,
            );
        assert(!is_digit(t[d]));
        lemma_digits_run(t, 0, d);
        lemma_digits_run(t, d + 1, len);
    }
    let num = SpecNode::leaf(Rule::NUMBER, t);
    assert(t.subrange(0, len) =~= t);
    assert(sp_number(t, 0) == Some((num, len)));
    // The first byte is a digit: no leading whitespace, no prefix operator.
    assert(is_digit(t[0]));
    assert(sp_ws(t, 0) == 0);
    assert(!sp_match(t, 0, seq![B_MINUS])) by {
        if sp_match(t, 0, seq![B_MINUS]) {
            assert(t.subrange(0, 1)[0] == t[0]);
        }
    }
    assert(!sp_match(t, 0, seq![B_BANG])) by {
        if sp_match(t, 0, seq![B_BANG]) {
            assert(t.subrange(0, 1)[0] == t[0]);
        }
    }
    assert(sp_unary_op(t, 0) is None);
    assert(sp_primary(t, 0) == Some((num, len)));
    lemma_single_primary_parse(t, num);
    assert(sp_lower(num) == SpecAst::Number(t));
}

/// Parsing the source `true` yields exactly `Bool(true)`, and parsing
/// `false` yields exactly `Bool(false)`: the two keywords, and nothing
/// shorter or longer, are the boolean literals.
#[verifier::rlimit(100)]
#[verifier::spinoff_prover]
pub proof fn lemma_bool_parse(b: bool)
    ensures
        sp_parse(if b { kw_true() } else { kw_false() }) == Some(seq![SpecAst::Bool(b)]),
{
    let t = if b { kw_true() } else { kw_false() };
    let len = t.len() as int;
    assert(t[0] == B_T || t[0] == B_F);
    assert(!is_digit(t[0]));
    assert(sp_digits(t, 0) == 0);
    assert(sp_number(t, 0) is None);
    assert(sp_ws(t, 0) == 0);
    assert(!sp_match(t, 0, seq![B_MINUS])) by {
        if sp_match(t, 0, seq![B_MINUS]) {
            assert(t.subrange(0, 1)[0] == t[0]);
        }
    }
    assert(!sp_match(t, 0, seq![B_BANG])) by {
        if sp_match(t, 0, seq![B_BANG]) {
            assert(t.subrange(0, 1)[0] == t[0]);
        }
    }
    assert(sp_unary_op(t, 0) is None);
    assert(t.subrange(0, len) =~= t);
    let p = if b {
        SpecNode::leaf(Rule::BOOL_TRUE, kw_true())
    } else {
        SpecNode::leaf(Rule::BOOL_FALSE, kw_false())
    };
    if b {
        assert(sp_match(t, 0, kw_true()));
    } else {
        assert(!sp_match(t, 0, kw_true())) by {
            if sp_match(t, 0, kw_true()) {
                assert(t.subrange(0, 4)[0] == t[0]);
            }
        }
        assert(sp_match(t, 0, kw_false()));
    }
    assert(sp_bool(t, 0) == Some((p, len)));
    assert(sp_primary(t, 0) == Some((p, len)));
    lemma_single_primary_parse(t, p);
    assert(sp_lower(p) == SpecAst::Bool(b));
}

} // verus!
