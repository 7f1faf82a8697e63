//! The grammar definition, as mathematics: a recursive-descent reading of the
//! precedence-layered grammar
//!
//! ```text
//! program    = ws (expression ws)* EOI
//! expression = equality
//! equality   = comparison (ws ("!=" | "===" | "==") ws comparison)?
//! comparison = term (ws (">=" | ">" | "<=" | "<") ws term)?
//! term       = factor (ws ("+" | "-") ws factor)?
//! factor     = unary (ws ("*" | "/") ws unary)?
//! unary      = ("-" | "!") ws unary | primary
//! primary    = NUMBER | BOOL_TRUE | BOOL_FALSE | grouping
//! grouping   = "(" ws expression ws ")"
//! NUMBER     = digit+ ("." digit+)?
//! ```
//!
//! Each binary precedence level admits at most one trailing operator/operand
//! pair per match; precedence is encoded purely by the nesting of the levels.
//! Every function takes the source and a position and yields the parse-tree
//! node matched there together with the position just past it, or `None` when
//! the production does not match. A few branches return `None` under
//! conditions that can never hold of a successful sub-match (a match that
//! consumed nothing); they serve only to make termination evident, and the
//! per-level lemmas of `crate::builder` show they are never taken.

use vstd::prelude::*;

use crate::ast::Rule;
use crate::tree::SpecNode;

verus! {

/// The byte values of the characters the grammar reads.
pub const B_SPACE: u8 = 32;

pub const B_TAB: u8 = 9;

pub const B_CR: u8 = 13;

pub const B_LF: u8 = 10;

pub const B_ZERO: u8 = 48;

pub const B_NINE: u8 = 57;

pub const B_T: u8 = 116;

pub const B_R: u8 = 114;

pub const B_U: u8 = 117;

pub const B_E: u8 = 101;

pub const B_F: u8 = 102;

pub const B_A: u8 = 97;

pub const B_L: u8 = 108;

pub const B_S: u8 = 115;

pub const B_BANG: u8 = 33;

pub const B_EQUALS: u8 = 61;

pub const B_GT: u8 = 62;

pub const B_LT: u8 = 60;

pub const B_PLUS: u8 = 43;

pub const B_MINUS: u8 = 45;

pub const B_STAR: u8 = 42;

pub const B_SLASH: u8 = 47;

pub const B_LPAREN: u8 = 40;

pub const B_RPAREN: u8 = 41;

pub const B_DOT: u8 = 46;

/// Whitespace: space, tab, carriage return, line feed.
pub open spec fn is_ws(c: u8) -> bool {
    c == B_SPACE || c == B_TAB || c == B_CR || c == B_LF
}

/// An ASCII decimal digit.
pub open spec fn is_digit(c: u8) -> bool {
    B_ZERO <= c && c <= B_NINE
}

/// The first position at or after `i` that does not hold whitespace.
pub open spec fn sp_ws(s: Seq<u8>, i: int) -> int
    decreases s.len() - i,
{
    if 0 <= i && i < s.len() && is_ws(s[i]) {
        sp_ws(s, i + 1)
    } else {
        i
    }
}

/// The first position at or after `i` that does not hold a digit.
pub open spec fn sp_digits(s: Seq<u8>, i: int) -> int
    decreases s.len() - i,
{
    if 0 <= i && i < s.len() && is_digit(s[i]) {
        sp_digits(s, i + 1)
    } else {
        i
    }
}

pub proof fn lemma_sp_ws_bounds(s: Seq<u8>, i: int)
    requires
        0 <= i <= s.len(),
    ensures
        i <= sp_ws(s, i) <= s.len(),
    decreases s.len() - i,
{
    if i < s.len() && is_ws(s[i]) {
        lemma_sp_ws_bounds(s, i + 1);
    }
}

pub proof fn lemma_sp_digits_bounds(s: Seq<u8>, i: int)
    requires
        0 <= i <= s.len(),
    ensures
        i <= sp_digits(s, i) <= s.len(),
    decreases s.len() - i,
{
    if i < s.len() && is_digit(s[i]) {
        lemma_sp_digits_bounds(s, i + 1);
    }
}

/// The bytes of the keyword `true`.
pub open spec fn kw_true() -> Seq<u8> {
    seq![B_T, B_R, B_U, B_E]
}

/// The bytes of the keyword `false`.
pub open spec fn kw_false() -> Seq<u8> {
    seq![B_F, B_A, B_L, B_S, B_E]
}

/// Whether the bytes of `kw` stand at position `i` of `s`.
pub open spec fn sp_match(s: Seq<u8>, i: int, kw: Seq<u8>) -> bool {
    0 <= i && i + kw.len() <= s.len() && s.subrange(i, i + kw.len()) == kw
}

/// A numeral literal: one or more digits, optionally followed by a point and
/// one or more digits.
pub open spec fn sp_number(s: Seq<u8>, i: int) -> Option<(SpecNode, int)> {
    let j = sp_digits(s, i);
    if !(0 <= i && i < j) {
        None
    } else {
        let k = if j < s.len() && s[j] == B_DOT && sp_digits(s, j + 1) > j + 1 {
            sp_digits(s, j + 1)
        } else {
            j
        };
        Some((SpecNode::leaf(Rule::NUMBER, s.subrange(i, k)), k))
    }
}

/// A boolean literal.
pub open spec fn sp_bool(s: Seq<u8>, i: int) -> Option<(SpecNode, int)> {
    if sp_match(s, i, kw_true()) {
        Some((SpecNode::leaf(Rule::BOOL_TRUE, kw_true()), i + 4))
    } else if sp_match(s, i, kw_false()) {
        Some((SpecNode::leaf(Rule::BOOL_FALSE, kw_false()), i + 5))
    } else {
        None
    }
}

/// An operator token of the equality level: `!=`, `===` or `==` (the longer
/// of the two equality spellings is tried first).
pub open spec fn sp_eq_op(s: Seq<u8>, i: int) -> Option<(SpecNode, int)> {
    if sp_match(s, i, seq![B_BANG, B_EQUALS]) {
        Some((SpecNode::leaf(Rule::not_equal, seq![B_BANG, B_EQUALS]), i + 2))
    } else if sp_match(s, i, seq![B_EQUALS, B_EQUALS, B_EQUALS]) {
        Some((SpecNode::leaf(Rule::triple_equal, seq![B_EQUALS, B_EQUALS, B_EQUALS]), i + 3))
    } else if sp_match(s, i, seq![B_EQUALS, B_EQUALS]) {
        Some((SpecNode::leaf(Rule::double_equal, seq![B_EQUALS, B_EQUALS]), i + 2))
    } else {
        None
    }
}

/// An operator token of the comparison level: `>=`, `>`, `<=` or `<` (the
/// two-byte spellings are tried first).
pub open spec fn sp_cmp_op(s: Seq<u8>, i: int) -> Option<(SpecNode, int)> {
    if sp_match(s, i, seq![B_GT, B_EQUALS]) {
        Some((SpecNode::leaf(Rule::greater_than_equal, seq![B_GT, B_EQUALS]), i + 2))
    } else if sp_match(s, i, seq![B_GT]) {
        Some((SpecNode::leaf(Rule::greater_than, seq![B_GT]), i + 1))
    } else if sp_match(s, i, seq![B_LT, B_EQUALS]) {
        Some((SpecNode::leaf(Rule::less_than_equal, seq![B_LT, B_EQUALS]), i + 2))
    } else if sp_match(s, i, seq![B_LT]) {
        Some((SpecNode::leaf(Rule::less_than, seq![B_LT]), i + 1))
    } else {
        None
    }
}

/// An operator token of the term level: `+` or `-`.
pub open spec fn sp_term_op(s: Seq<u8>, i: int) -> Option<(SpecNode, int)> {
    if sp_match(s, i, seq![B_PLUS]) {
        Some((SpecNode::leaf(Rule::plus, seq![B_PLUS]), i + 1))
    } else if sp_match(s, i, seq![B_MINUS]) {
        Some((SpecNode::leaf(Rule::minus, seq![B_MINUS]), i + 1))
    } else {
        None
    }
}

/// An operator token of the factor level: `*` or `/`.
pub open spec fn sp_factor_op(s: Seq<u8>, i: int) -> Option<(SpecNode, int)> {
    if sp_match(s, i, seq![B_STAR]) {
        Some((SpecNode::leaf(Rule::multiply, seq![B_STAR]), i + 1))
    } else if sp_match(s, i, seq![B_SLASH]) {
        Some((SpecNode::leaf(Rule::divide, seq![B_SLASH]), i + 1))
    } else {
        None
    }
}

/// A prefix operator token: `-` or `!`.
pub open spec fn sp_unary_op(s: Seq<u8>, i: int) -> Option<(SpecNode, int)> {
    if sp_match(s, i, seq![B_MINUS]) {
        Some((SpecNode::leaf(Rule::minus, seq![B_MINUS]), i + 1))
    } else if sp_match(s, i, seq![B_BANG]) {
        Some((SpecNode::leaf(Rule::inverse, seq![B_BANG]), i + 1))
    } else {
        None
    }
}

/// The equality level: a comparison, optionally followed by one equality
/// operator and a second comparison.
pub open spec fn sp_equality(s: Seq<u8>, i: int) -> Option<(SpecNode, int)>
    decreases s.len() - i, 6int,
{
    match sp_comparison(s, i) {
        None => None,
        Some((l, j)) => if !(i < j && j <= s.len()) {
            None
        } else {
            let k = sp_ws(s, j);
            match sp_eq_op(s, k) {
                None => Some(
                    (SpecNode { rule: Rule::equality, children: seq![l], text: s.subrange(i, j) }, j),
                ),
                Some((o, j2)) => {
                    let k2 = sp_ws(s, j2);
                    if !(i < k2 && k2 <= s.len()) {
                        None
                    } else {
                        match sp_comparison(s, k2) {
                            None => Some(
                                (
                                    SpecNode {
                                        rule: Rule::equality,
                                        children: seq![l],
                                        text: s.subrange(i, j),
                                    },
                                    j,
                                ),
                            ),
                            Some((r, j3)) => Some(
                                (
                                    SpecNode {
                                        rule: Rule::equality,
                                        children: seq![l, o, r],
                                        text: s.subrange(i, j3),
                                    },
                                    j3,
                                ),
                            ),
                        }
                    }
                },
            }
        },
    }
}

/// The comparison level: a term, optionally followed by one comparison
/// operator and a second term.
pub open spec fn sp_comparison(s: Seq<u8>, i: int) -> Option<(SpecNode, int)>
    decreases s.len() - i, 5int,
{
    match sp_term(s, i) {
        None => None,
        Some((l, j)) => if !(i < j && j <= s.len()) {
            None
        } else {
            let k = sp_ws(s, j);
            match sp_cmp_op(s, k) {
                None => Some(
                    (
                        SpecNode { rule: Rule::comparison, children: seq![l], text: s.subrange(i, j) },
                        j,
                    ),
                ),
                Some((o, j2)) => {
                    let k2 = sp_ws(s, j2);
                    if !(i < k2 && k2 <= s.len()) {
                        None
                    } else {
                        match sp_term(s, k2) {
                            None => Some(
                                (
                                    SpecNode {
                                        rule: Rule::comparison,
                                        children: seq![l],
                                        text: s.subrange(i, j),
                                    },
                                    j,
                                ),
                            ),
                            Some((r, j3)) => Some(
                                (
                                    SpecNode {
                                        rule: Rule::comparison,
                                        children: seq![l, o, r],
                                        text: s.subrange(i, j3),
                                    },
                                    j3,
                                ),
                            ),
                        }
                    }
                },
            }
        },
    }
}

/// The term level: a factor, optionally followed by `+` or `-` and a second
/// factor.
pub open spec fn sp_term(s: Seq<u8>, i: int) -> Option<(SpecNode, int)>
    decreases s.len() - i, 4int,
{
    match sp_factor(s, i) {
        None => None,
        Some((l, j)) => if !(i < j && j <= s.len()) {
            None
        } else {
            let k = sp_ws(s, j);
            match sp_term_op(s, k) {
                None => Some(
                    (SpecNode { rule: Rule::term, children: seq![l], text: s.subrange(i, j) }, j),
                ),
                Some((o, j2)) => {
                    let k2 = sp_ws(s, j2);
                    if !(i < k2 && k2 <= s.len()) {
                        None
                    } else {
                        match sp_factor(s, k2) {
                            None => Some(
                                (
                                    SpecNode {
                                        rule: Rule::term,
                                        children: seq![l],
                                        text: s.subrange(i, j),
                                    },
                                    j,
                                ),
                            ),
                            Some((r, j3)) => Some(
                                (
                                    SpecNode {
                                        rule: Rule::term,
                                        children: seq![l, o, r],
                                        text: s.subrange(i, j3),
                                    },
                                    j3,
                                ),
                            ),
                        }
                    }
                },
            }
        },
    }
}

/// The factor level: a unary, optionally followed by `*` or `/` and a second
/// unary.
pub open spec fn sp_factor(s: Seq<u8>, i: int) -> Option<(SpecNode, int)>
    decreases s.len() - i, 3int,
{
    match sp_unary(s, i) {
        None => None,
        Some((l, j)) => if !(i < j && j <= s.len()) {
            None
        } else {
            let k = sp_ws(s, j);
            match sp_factor_op(s, k) {
                None => Some(
                    (SpecNode { rule: Rule::factor, children: seq![l], text: s.subrange(i, j) }, j),
                ),
                Some((o, j2)) => {
                    let k2 = sp_ws(s, j2);
                    if !(i < k2 && k2 <= s.len()) {
                        None
                    } else {
                        match sp_unary(s, k2) {
                            None => Some(
                                (
                                    SpecNode {
                                        rule: Rule::factor,
                                        children: seq![l],
                                        text: s.subrange(i, j),
                                    },
                                    j,
                                ),
                            ),
                            Some((r, j3)) => Some(
                                (
                                    SpecNode {
                                        rule: Rule::factor,
                                        children: seq![l, o, r],
                                        text: s.subrange(i, j3),
                                    },
                                    j3,
                                ),
                            ),
                        }
                    }
                },
            }
        },
    }
}

/// The unary level: a prefix operator applied to a unary, or a bare primary.
pub open spec fn sp_unary(s: Seq<u8>, i: int) -> Option<(SpecNode, int)>
    decreases s.len() - i, 2int,
{
    match sp_unary_op(s, i) {
        Some((o, j)) => {
            let k = sp_ws(s, j);
            if !(i < k && k <= s.len()) {
                None
            } else {
                match sp_unary(s, k) {
                    None => None,
                    Some((r, j2)) => Some(
                        (
                            SpecNode {
                                rule: Rule::unary,
                                children: seq![o, r],
                                text: s.subrange(i, j2),
                            },
                            j2,
                        ),
                    ),
                }
            }
        },
        None => match sp_primary(s, i) {
            None => None,
            Some((p, j)) => Some(
                (SpecNode { rule: Rule::unary, children: seq![p], text: s.subrange(i, j) }, j),
            ),
        },
    }
}

/// The primary level: a literal or a parenthesized grouping. This level is
/// silent: it yields the matched node itself, never a node of its own.
pub open spec fn sp_primary(s: Seq<u8>, i: int) -> Option<(SpecNode, int)>
    decreases s.len() - i, 1int,
{
    match sp_number(s, i) {
        Some(r) => Some(r),
        None => match sp_bool(s, i) {
            Some(r) => Some(r),
            None => sp_grouping(s, i),
        },
    }
}

/// A parenthesized grouping: `(` expression `)`.
pub open spec fn sp_grouping(s: Seq<u8>, i: int) -> Option<(SpecNode, int)>
    decreases s.len() - i, 0int,
{
    if 0 <= i && i < s.len() && s[i] == B_LPAREN {
        let k = sp_ws(s, i + 1);
        if !(i < k && k <= s.len()) {
            None
        } else {
            match sp_expression(s, k) {
                None => None,
                Some((e, j)) => {
                    let j2 = sp_ws(s, j);
                    if 0 <= j2 && j2 < s.len() && s[j2] == B_RPAREN {
                        Some(
                            (
                                SpecNode {
                                    rule: Rule::grouping,
                                    children: seq![e],
                                    text: s.subrange(i, j2 + 1),
                                },
                                j2 + 1,
                            ),
                        )
                    } else {
                        None
                    }
                },
            }
        }
    } else {
        None
    }
}

/// The expression wrapper: a pass-through around the equality level.
pub open spec fn sp_expression(s: Seq<u8>, i: int) -> Option<(SpecNode, int)>
    decreases s.len() - i, 7int,
{
    match sp_equality(s, i) {
        None => None,
        Some((n, j)) => Some(
            (SpecNode { rule: Rule::expression, children: seq![n], text: s.subrange(i, j) }, j),
        ),
    }
}

/// The whitespace-separated expressions of a whole program, from position `i`
/// to the end of the source; `None` when some stretch of the source matches
/// no expression.
pub open spec fn sp_exprs(s: Seq<u8>, i: int) -> Option<Seq<SpecNode>>
    decreases s.len() - i,
{
    let k = sp_ws(s, i);
    if !(0 <= i && i <= k && k <= s.len()) {
        None
    } else if k == s.len() {
        Some(Seq::empty())
    } else {
        match sp_expression(s, k) {
            None => None,
            Some((n, j)) => if !(k < j && j <= s.len()) {
                None
            } else {
                match sp_exprs(s, j) {
                    None => None,
                    Some(rest) => Some(Seq::empty().push(n) + rest),
                }
            },
        }
    }
}

/// The position at which recognition of a whole program starting at `i`
/// stops: the start of the first stretch of source that matches no
/// expression, or the end of the source when every expression matches.
pub open spec fn sp_fail_pos(s: Seq<u8>, i: int) -> int
    decreases s.len() - i,
{
    let k = sp_ws(s, i);
    if !(0 <= i && i <= k && k <= s.len()) {
        k
    } else if k == s.len() {
        k
    } else {
        match sp_expression(s, k) {
            None => k,
            Some((n, j)) => if !(k < j && j <= s.len()) {
                k
            } else {
                sp_fail_pos(s, j)
            },
        }
    }
}

/// The root parse tree of a whole program: one node whose children are the
/// expression matches in source order, closed by an end-of-input marker.
pub open spec fn sp_program(s: Seq<u8>) -> Option<SpecNode> {
    match sp_exprs(s, 0) {
        None => None,
        Some(es) => Some(
            SpecNode {
                rule: Rule::program,
                children: es.push(SpecNode::leaf(Rule::EOI, Seq::empty())),
                text: s,
            },
        ),
    }
}

} // verus!
