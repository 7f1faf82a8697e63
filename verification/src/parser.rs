//! The grammar recognizer: executable recursive descent over the source
//! bytes, proved to return exactly what the grammar definition
//! (`crate::grammar`) says it recognizes.

use vstd::prelude::*;

use crate::ast::Rule;
use crate::grammar::is_digit;
use crate::grammar::is_ws;
use crate::grammar::kw_false;
use crate::grammar::kw_true;
use crate::grammar::sp_bool;
use crate::grammar::sp_cmp_op;
use crate::grammar::sp_comparison;
use crate::grammar::sp_digits;
use crate::grammar::sp_equality;
use crate::grammar::sp_expression;
use crate::grammar::sp_exprs;
use crate::grammar::sp_factor;
use crate::grammar::sp_fail_pos;
use crate::grammar::sp_program;
use crate::grammar::sp_grouping;
use crate::grammar::sp_primary;
use crate::grammar::sp_term;
use crate::grammar::sp_unary;
use crate::grammar::sp_eq_op;
use crate::grammar::sp_factor_op;
use crate::grammar::sp_match;
use crate::grammar::sp_number;
use crate::grammar::sp_term_op;
use crate::grammar::sp_unary_op;
use crate::grammar::sp_ws;
use crate::grammar::B_BANG;
use crate::grammar::B_EQUALS;
use crate::grammar::B_GT;
use crate::grammar::B_LPAREN;
use crate::grammar::B_LT;
use crate::grammar::B_RPAREN;
use crate::grammar::B_MINUS;
use crate::grammar::B_PLUS;
use crate::grammar::B_SLASH;
use crate::grammar::B_STAR;
use crate::grammar::B_A;
use crate::grammar::B_CR;
use crate::grammar::B_DOT;
use crate::grammar::B_E;
use crate::grammar::B_F;
use crate::grammar::B_L;
use crate::grammar::B_LF;
use crate::grammar::B_NINE;
use crate::grammar::B_R;
use crate::grammar::B_S;
use crate::grammar::B_SPACE;
use crate::grammar::B_T;
use crate::grammar::B_TAB;
use crate::grammar::B_U;
use crate::grammar::B_ZERO;
use crate::tree::deep_view_children;
use crate::tree::lemma_deep_view_children;
use crate::tree::ParseNode;
use crate::tree::SpecNode;

verus! {

/// A user-facing parse failure: the position in the source where recognition
/// stopped, and the grammar categories that were expected there.
#[derive(Debug, PartialEq)]
pub struct ParseError {
    pub pos: usize,
    pub expected: Vec<Rule>,
}

/// Whether `c` is whitespace.
fn is_ws_byte(c: u8) -> (r: bool)
    ensures
        r == is_ws(c),
{
    c == B_SPACE || c == B_TAB || c == B_CR || c == B_LF
}

/// Whether `c` is an ASCII decimal digit.
fn is_digit_byte(c: u8) -> (r: bool)
    ensures
        r == is_digit(c),
{
    B_ZERO <= c && c <= B_NINE
}

/// Skips whitespace from position `i` on.
fn skip_ws(s: &Vec<u8>, i: usize) -> (r: usize)
    requires
        i <= s.len(),
    ensures
        r as int == sp_ws(s@, i as int),
        i <= r <= s.len(),
{
    let mut p = i;
    while p < s.len() && is_ws_byte(s[p])
        invariant
            i <= p <= s.len(),
            sp_ws(s@, i as int) == sp_ws(s@, p as int),
        decreases s.len() - p,
    {
        p = p + 1;
    }
    p
}

/// Scans digits from position `i` on.
fn scan_digits(s: &Vec<u8>, i: usize) -> (r: usize)
    requires
        i <= s.len(),
    ensures
        r as int == sp_digits(s@, i as int),
        i <= r <= s.len(),
{
    let mut p = i;
    while p < s.len() && is_digit_byte(s[p])
        invariant
            i <= p <= s.len(),
            sp_digits(s@, i as int) == sp_digits(s@, p as int),
        decreases s.len() - p,
    {
        p = p + 1;
    }
    p
}

/// Copies the bytes of `s` between positions `i` and `j`.
fn sub_bytes(s: &Vec<u8>, i: usize, j: usize) -> (r: Vec<u8>)
    requires
        i <= j <= s.len(),
    ensures
        r@ == s@.subrange(i as int, j as int),
{
    let mut v: Vec<u8> = Vec::new();
    let mut p = i;
    while p < j
        invariant
            i <= p <= j <= s.len(),
            v@ == s@.subrange(i as int, p as int),
        decreases j - p,
    {
        v.push(s[p]);
        p = p + 1;
        proof {
            assert(v@ =~= s@.subrange(i as int, p as int));
        }
    }
    v
}

/// Copies a whole byte vector.
pub(crate) fn copy_bytes(s: &Vec<u8>) -> (r: Vec<u8>)
    ensures
        r@ == s@,
{
    let r = sub_bytes(s, 0, s.len());
    proof {
        assert(s@.subrange(0, s.len() as int) =~= s@);
    }
    r
}

/// Whether the byte `b0` stands at position `i` of `s`.
fn match1(s: &Vec<u8>, i: usize, b0: u8) -> (r: bool)
    requires
        i <= s.len(),
    ensures
        r == sp_match(s@, i as int, seq![b0]),
{
    if s.len() - i >= 1 && s[i] == b0 {
        proof {
            assert(s@.subrange(i as int, i as int + 1) =~= seq![b0]);
        }
        true
    } else {
        proof {
            if sp_match(s@, i as int, seq![b0]) {
                let ss = s@.subrange(i as int, i as int + 1);
                assert(ss[0] == s@[i as int]);
            }
        }
        false
    }
}

/// Whether the two bytes `b0 b1` stand at position `i` of `s`.
fn match2(s: &Vec<u8>, i: usize, b0: u8, b1: u8) -> (r: bool)
    requires
        i <= s.len(),
    ensures
        r == sp_match(s@, i as int, seq![b0, b1]),
{
    if s.len() - i >= 2 && s[i] == b0 && s[i + 1] == b1 {
        proof {
            assert(s@.subrange(i as int, i as int + 2) =~= seq![b0, b1]);
        }
        true
    } else {
        proof {
            if sp_match(s@, i as int, seq![b0, b1]) {
                let ss = s@.subrange(i as int, i as int + 2);
                assert(ss[0] == s@[i as int]);
                assert(ss[1] == s@[i as int + 1]);
            }
        }
        false
    }
}

/// Whether the three bytes `b0 b1 b2` stand at position `i` of `s`.
fn match3(s: &Vec<u8>, i: usize, b0: u8, b1: u8, b2: u8) -> (r: bool)
    requires
        i <= s.len(),
    ensures
        r == sp_match(s@, i as int, seq![b0, b1, b2]),
{
    if s.len() - i >= 3 && s[i] == b0 && s[i + 1] == b1 && s[i + 2] == b2 {
        proof {
            assert(s@.subrange(i as int, i as int + 3) =~= seq![b0, b1, b2]);
        }
        true
    } else {
        proof {
            if sp_match(s@, i as int, seq![b0, b1, b2]) {
                let ss = s@.subrange(i as int, i as int + 3);
                assert(ss[0] == s@[i as int]);
                assert(ss[1] == s@[i as int + 1]);
                assert(ss[2] == s@[i as int + 2]);
            }
        }
        false
    }
}

/// Whether the keyword `true` stands at position `i` of `s`.
fn match_kw_true(s: &Vec<u8>, i: usize) -> (r: bool)
    requires
        i <= s.len(),
    ensures
        r == sp_match(s@, i as int, kw_true()),
{
    if s.len() - i >= 4 && s[i] == B_T && s[i + 1] == B_R && s[i + 2] == B_U && s[i + 3] == B_E {
        proof {
            assert(s@.subrange(i as int, i as int + 4) =~= kw_true());
        }
        true
    } else {
        proof {
            if sp_match(s@, i as int, kw_true()) {
                let ss = s@.subrange(i as int, i as int + 4);
                assert(ss[0] == s@[i as int]);
                assert(ss[1] == s@[i as int + 1]);
                assert(ss[2] == s@[i as int + 2]);
                assert(ss[3] == s@[i as int + 3]);
            }
        }
        false
    }
}

/// Whether the keyword `false` stands at position `i` of `s`.
fn match_kw_false(s: &Vec<u8>, i: usize) -> (r: bool)
    requires
        i <= s.len(),
    ensures
        r == sp_match(s@, i as int, kw_false()),
{
    if s.len() - i >= 5 && s[i] == B_F && s[i + 1] == B_A && s[i + 2] == B_L && s[i + 3] == B_S
        && s[i + 4] == B_E {
        proof {
            assert(s@.subrange(i as int, i as int + 5) =~= kw_false());
        }
        true
    } else {
        proof {
            if sp_match(s@, i as int, kw_false()) {
                let ss = s@.subrange(i as int, i as int + 5);
                assert(ss[0] == s@[i as int]);
                assert(ss[1] == s@[i as int + 1]);
                assert(ss[2] == s@[i as int + 2]);
                assert(ss[3] == s@[i as int + 3]);
                assert(ss[4] == s@[i as int + 4]);
            }
        }
        false
    }
}

/// A token leaf: a node with no children.
fn leaf(rule: Rule, text: Vec<u8>) -> (n: ParseNode)
    ensures
        n.deep_view() == SpecNode::leaf(rule, text@),
{
    let n = ParseNode { rule, children: Vec::new(), text };
    proof {
        assert(n.deep_view().children =~= Seq::<SpecNode>::empty());
    }
    n
}

/// A node with one child.
fn node1(rule: Rule, c0: ParseNode, text: Vec<u8>) -> (n: ParseNode)
    ensures
        n.deep_view() == (SpecNode { rule, children: seq![c0.deep_view()], text: text@ }),
{
    let ghost c0v = c0.deep_view();
    let mut children: Vec<ParseNode> = Vec::new();
    children.push(c0);
    let n = ParseNode { rule, children, text };
    proof {
        lemma_deep_view_children(n.children@, 0);
        assert(n.deep_view().children =~= seq![c0v]);
    }
    n
}

/// A node with two children.
fn node2(rule: Rule, c0: ParseNode, c1: ParseNode, text: Vec<u8>) -> (n: ParseNode)
    ensures
        n.deep_view() == (SpecNode {
            rule,
            children: seq![c0.deep_view(), c1.deep_view()],
            text: text@,
        }),
{
    let ghost c0s = c0;
    let ghost c1s = c1;
    let mut children: Vec<ParseNode> = Vec::new();
    children.push(c0);
    children.push(c1);
    let n = ParseNode { rule, children, text };
    proof {
        lemma_deep_view_children(n.children@, 0);
        assert(n.children@[0] == c0s);
        assert(n.children@[1] == c1s);
        assert(n.deep_view().children =~= seq![c0s.deep_view(), c1s.deep_view()]);
    }
    n
}

/// A node with three children.
fn node3(rule: Rule, c0: ParseNode, c1: ParseNode, c2: ParseNode, text: Vec<u8>) -> (n: ParseNode)
    ensures
        n.deep_view() == (SpecNode {
            rule,
            children: seq![c0.deep_view(), c1.deep_view(), c2.deep_view()],
            text: text@,
        }),
{
    let ghost c0s = c0;
    let ghost c1s = c1;
    let ghost c2s = c2;
    let mut children: Vec<ParseNode> = Vec::new();
    children.push(c0);
    children.push(c1);
    children.push(c2);
    let n = ParseNode { rule, children, text };
    proof {
        lemma_deep_view_children(n.children@, 0);
        assert(n.children@[0] == c0s);
        assert(n.children@[1] == c1s);
        assert(n.children@[2] == c2s);
        assert(n.deep_view().children =~= seq![c0s.deep_view(), c1s.deep_view(), c2s.deep_view()]);
    }
    n
}

/// A one-byte vector.
fn bytes1(b0: u8) -> (r: Vec<u8>)
    ensures
        r@ == seq![b0],
{
    let mut v: Vec<u8> = Vec::new();
    v.push(b0);
    proof {
        assert(v@ =~= seq![b0]);
    }
    v
}

/// A two-byte vector.
fn bytes2(b0: u8, b1: u8) -> (r: Vec<u8>)
    ensures
        r@ == seq![b0, b1],
{
    let mut v: Vec<u8> = Vec::new();
    v.push(b0);
    v.push(b1);
    proof {
        assert(v@ =~= seq![b0, b1]);
    }
    v
}

/// A three-byte vector.
fn bytes3(b0: u8, b1: u8, b2: u8) -> (r: Vec<u8>)
    ensures
        r@ == seq![b0, b1, b2],
{
    let mut v: Vec<u8> = Vec::new();
    v.push(b0);
    v.push(b1);
    v.push(b2);
    proof {
        assert(v@ =~= seq![b0, b1, b2]);
    }
    v
}

/// Recognizes a numeral literal at position `i`.
fn p_number(s: &Vec<u8>, i: usize) -> (r: Option<(ParseNode, usize)>)
    requires
        i <= s.len(),
    ensures
        match r {
            Some((n, j)) => sp_number(s@, i as int) == Some((n.deep_view(), j as int)) && i < j
                <= s.len(),
            None => sp_number(s@, i as int) is None,
        },
{
    let j = scan_digits(s, i);
    if j == i {
        return None;
    }
    let mut k = j;
    if j < s.len() && s[j] == B_DOT {
        let d = scan_digits(s, j + 1);
        if d > j + 1 {
            k = d;
        }
    }
    Some((leaf(Rule::NUMBER, sub_bytes(s, i, k)), k))
}

/// Recognizes a boolean literal at position `i`.
fn p_bool(s: &Vec<u8>, i: usize) -> (r: Option<(ParseNode, usize)>)
    requires
        i <= s.len(),
    ensures
        match r {
            Some((n, j)) => sp_bool(s@, i as int) == Some((n.deep_view(), j as int)) && i < j
                <= s.len(),
            None => sp_bool(s@, i as int) is None,
        },
{
    if match_kw_true(s, i) {
        Some((leaf(Rule::BOOL_TRUE, sub_bytes(s, i, i + 4)), i + 4))
    } else if match_kw_false(s, i) {
        Some((leaf(Rule::BOOL_FALSE, sub_bytes(s, i, i + 5)), i + 5))
    } else {
        None
    }
}

/// Recognizes an equality-level operator token at position `i`.
fn p_eq_op(s: &Vec<u8>, i: usize) -> (r: Option<(ParseNode, usize)>)
    requires
        i <= s.len(),
    ensures
        match r {
            Some((n, j)) => sp_eq_op(s@, i as int) == Some((n.deep_view(), j as int)) && i < j
                <= s.len(),
            None => sp_eq_op(s@, i as int) is None,
        },
{
    if match2(s, i, B_BANG, B_EQUALS) {
        Some((leaf(Rule::not_equal, bytes2(B_BANG, B_EQUALS)), i + 2))
    } else if match3(s, i, B_EQUALS, B_EQUALS, B_EQUALS) {
        Some((leaf(Rule::triple_equal, bytes3(B_EQUALS, B_EQUALS, B_EQUALS)), i + 3))
    } else if match2(s, i, B_EQUALS, B_EQUALS) {
        Some((leaf(Rule::double_equal, bytes2(B_EQUALS, B_EQUALS)), i + 2))
    } else {
        None
    }
}

/// Recognizes a comparison-level operator token at position `i`.
fn p_cmp_op(s: &Vec<u8>, i: usize) -> (r: Option<(ParseNode, usize)>)
    requires
        i <= s.len(),
    ensures
        match r {
            Some((n, j)) => sp_cmp_op(s@, i as int) == Some((n.deep_view(), j as int)) && i < j
                <= s.len(),
            None => sp_cmp_op(s@, i as int) is None,
        },
{
    if match2(s, i, B_GT, B_EQUALS) {
        Some((leaf(Rule::greater_than_equal, bytes2(B_GT, B_EQUALS)), i + 2))
    } else if match1(s, i, B_GT) {
        Some((leaf(Rule::greater_than, bytes1(B_GT)), i + 1))
    } else if match2(s, i, B_LT, B_EQUALS) {
        Some((leaf(Rule::less_than_equal, bytes2(B_LT, B_EQUALS)), i + 2))
    } else if match1(s, i, B_LT) {
        Some((leaf(Rule::less_than, bytes1(B_LT)), i + 1))
    } else {
        None
    }
}

/// Recognizes a term-level operator token at position `i`.
fn p_term_op(s: &Vec<u8>, i: usize) -> (r: Option<(ParseNode, usize)>)
    requires
        i <= s.len(),
    ensures
        match r {
            Some((n, j)) => sp_term_op(s@, i as int) == Some((n.deep_view(), j as int)) && i < j
                <= s.len(),
            None => sp_term_op(s@, i as int) is None,
        },
{
    if match1(s, i, B_PLUS) {
        Some((leaf(Rule::plus, bytes1(B_PLUS)), i + 1))
    } else if match1(s, i, B_MINUS) {
        Some((leaf(Rule::minus, bytes1(B_MINUS)), i + 1))
    } else {
        None
    }
}

/// Recognizes a factor-level operator token at position `i`.
fn p_factor_op(s: &Vec<u8>, i: usize) -> (r: Option<(ParseNode, usize)>)
    requires
        i <= s.len(),
    ensures
        match r {
            Some((n, j)) => sp_factor_op(s@, i as int) == Some((n.deep_view(), j as int)) && i < j
                <= s.len(),
            None => sp_factor_op(s@, i as int) is None,
        },
{
    if match1(s, i, B_STAR) {
        Some((leaf(Rule::multiply, bytes1(B_STAR)), i + 1))
    } else if match1(s, i, B_SLASH) {
        Some((leaf(Rule::divide, bytes1(B_SLASH)), i + 1))
    } else {
        None
    }
}

/// Recognizes a prefix operator token at position `i`.
fn p_unary_op(s: &Vec<u8>, i: usize) -> (r: Option<(ParseNode, usize)>)
    requires
        i <= s.len(),
    ensures
        match r {
            Some((n, j)) => sp_unary_op(s@, i as int) == Some((n.deep_view(), j as int)) && i < j
                <= s.len(),
            None => sp_unary_op(s@, i as int) is None,
        },
{
    if match1(s, i, B_MINUS) {
        Some((leaf(Rule::minus, bytes1(B_MINUS)), i + 1))
    } else if match1(s, i, B_BANG) {
        Some((leaf(Rule::inverse, bytes1(B_BANG)), i + 1))
    } else {
        None
    }
}

/// Recognizes a equality-level match at position `i`.
fn p_equality(s: &Vec<u8>, i: usize) -> (r: Option<(ParseNode, usize)>)
    requires
        i <= s.len(),
    ensures
        match r {
            Some((n, j)) => sp_equality(s@, i as int) == Some((n.deep_view(), j as int)) && i < j
                <= s.len(),
            None => sp_equality(s@, i as int) is None,
        },
    decreases s@.len() - i, 6int,
{
    match p_comparison(s, i) {
        None => None,
        Some((l, j)) => {
            let k = skip_ws(s, j);
            match p_eq_op(s, k) {
                None => {
                    let t = sub_bytes(s, i, j);
                    Some((node1(Rule::equality, l, t), j))
                },
                Some((o, j2)) => {
                    let k2 = skip_ws(s, j2);
                    match p_comparison(s, k2) {
                        None => {
                            let t = sub_bytes(s, i, j);
                            Some((node1(Rule::equality, l, t), j))
                        },
                        Some((rt, j3)) => {
                            let t = sub_bytes(s, i, j3);
                            Some((node3(Rule::equality, l, o, rt, t), j3))
                        },
                    }
                },
            }
        },
    }
}

/// Recognizes a comparison-level match at position `i`.
fn p_comparison(s: &Vec<u8>, i: usize) -> (r: Option<(ParseNode, usize)>)
    requires
        i <= s.len(),
    ensures
        match r {
            Some((n, j)) => sp_comparison(s@, i as int) == Some((n.deep_view(), j as int)) && i < j
                <= s.len(),
            None => sp_comparison(s@, i as int) is None,
        },
    decreases s@.len() - i, 5int,
{
    match p_term(s, i) {
        None => None,
        Some((l, j)) => {
            let k = skip_ws(s, j);
            match p_cmp_op(s, k) {
                None => {
                    let t = sub_bytes(s, i, j);
                    Some((node1(Rule::comparison, l, t), j))
                },
                Some((o, j2)) => {
                    let k2 = skip_ws(s, j2);
                    match p_term(s, k2) {
                        None => {
                            let t = sub_bytes(s, i, j);
                            Some((node1(Rule::comparison, l, t), j))
                        },
                        Some((rt, j3)) => {
                            let t = sub_bytes(s, i, j3);
                            Some((node3(Rule::comparison, l, o, rt, t), j3))
                        },
                    }
                },
            }
        },
    }
}

/// Recognizes a term-level match at position `i`.
fn p_term(s: &Vec<u8>, i: usize) -> (r: Option<(ParseNode, usize)>)
    requires
        i <= s.len(),
    ensures
        match r {
            Some((n, j)) => sp_term(s@, i as int) == Some((n.deep_view(), j as int)) && i < j
                <= s.len(),
            None => sp_term(s@, i as int) is None,
        },
    decreases s@.len() - i, 4int,
{
    match p_factor(s, i) {
        None => None,
        Some((l, j)) => {
            let k = skip_ws(s, j);
            match p_term_op(s, k) {
                None => {
                    let t = sub_bytes(s, i, j);
                    Some((node1(Rule::term, l, t), j))
                },
                Some((o, j2)) => {
                    let k2 = skip_ws(s, j2);
                    match p_factor(s, k2) {
                        None => {
                            let t = sub_bytes(s, i, j);
                            Some((node1(Rule::term, l, t), j))
                        },
                        Some((rt, j3)) => {
                            let t = sub_bytes(s, i, j3);
                            Some((node3(Rule::term, l, o, rt, t), j3))
                        },
                    }
                },
            }
        },
    }
}

/// Recognizes a factor-level match at position `i`.
fn p_factor(s: &Vec<u8>, i: usize) -> (r: Option<(ParseNode, usize)>)
    requires
        i <= s.len(),
    ensures
        match r {
            Some((n, j)) => sp_factor(s@, i as int) == Some((n.deep_view(), j as int)) && i < j
                <= s.len(),
            None => sp_factor(s@, i as int) is None,
        },
    decreases s@.len() - i, 3int,
{
    match p_unary(s, i) {
        None => None,
        Some((l, j)) => {
            let k = skip_ws(s, j);
            match p_factor_op(s, k) {
                None => {
                    let t = sub_bytes(s, i, j);
                    Some((node1(Rule::factor, l, t), j))
                },
                Some((o, j2)) => {
                    let k2 = skip_ws(s, j2);
                    match p_unary(s, k2) {
                        None => {
                            let t = sub_bytes(s, i, j);
                            Some((node1(Rule::factor, l, t), j))
                        },
                        Some((rt, j3)) => {
                            let t = sub_bytes(s, i, j3);
                            Some((node3(Rule::factor, l, o, rt, t), j3))
                        },
                    }
                },
            }
        },
    }
}

/// Recognizes a unary-level match at position `i`: a prefix operator applied
/// to a unary, or a bare primary.
fn p_unary(s: &Vec<u8>, i: usize) -> (r: Option<(ParseNode, usize)>)
    requires
        i <= s.len(),
    ensures
        match r {
            Some((n, j)) => sp_unary(s@, i as int) == Some((n.deep_view(), j as int)) && i < j
                <= s.len(),
            None => sp_unary(s@, i as int) is None,
        },
    decreases s@.len() - i, 2int,
{
    match p_unary_op(s, i) {
        Some((o, j)) => {
            let k = skip_ws(s, j);
            match p_unary(s, k) {
                None => None,
                Some((rt, j2)) => {
                    let t = sub_bytes(s, i, j2);
                    Some((node2(Rule::unary, o, rt, t), j2))
                },
            }
        },
        None => match p_primary(s, i) {
            None => None,
            Some((p, j)) => {
                let t = sub_bytes(s, i, j);
                Some((node1(Rule::unary, p, t), j))
            },
        },
    }
}

/// Recognizes a primary-level match at position `i`: a literal or a
/// grouping. The level is silent: it hands the matched node through.
fn p_primary(s: &Vec<u8>, i: usize) -> (r: Option<(ParseNode, usize)>)
    requires
        i <= s.len(),
    ensures
        match r {
            Some((n, j)) => sp_primary(s@, i as int) == Some((n.deep_view(), j as int)) && i < j
                <= s.len(),
            None => sp_primary(s@, i as int) is None,
        },
    decreases s@.len() - i, 1int,
{
    match p_number(s, i) {
        Some(r0) => Some(r0),
        None => match p_bool(s, i) {
            Some(r0) => Some(r0),
            None => p_grouping(s, i),
        },
    }
}

/// Recognizes a parenthesized grouping at position `i`.
fn p_grouping(s: &Vec<u8>, i: usize) -> (r: Option<(ParseNode, usize)>)
    requires
        i <= s.len(),
    ensures
        match r {
            Some((n, j)) => sp_grouping(s@, i as int) == Some((n.deep_view(), j as int)) && i < j
                <= s.len(),
            None => sp_grouping(s@, i as int) is None,
        },
    decreases s@.len() - i, 0int,
{
    if i < s.len() && s[i] == B_LPAREN {
        let k = skip_ws(s, i + 1);
        match p_expression(s, k) {
            None => None,
            Some((e, j)) => {
                let j2 = skip_ws(s, j);
                if j2 < s.len() && s[j2] == B_RPAREN {
                    let t = sub_bytes(s, i, j2 + 1);
                    Some((node1(Rule::grouping, e, t), j2 + 1))
                } else {
                    None
                }
            },
        }
    } else {
        None
    }
}

/// Recognizes an expression at position `i`: the pass-through wrapper around
/// the equality level.
fn p_expression(s: &Vec<u8>, i: usize) -> (r: Option<(ParseNode, usize)>)
    requires
        i <= s.len(),
    ensures
        match r {
            Some((n, j)) => sp_expression(s@, i as int) == Some((n.deep_view(), j as int)) && i < j
                <= s.len(),
            None => sp_expression(s@, i as int) is None,
        },
    decreases s@.len() - i, 7int,
{
    match p_equality(s, i) {
        None => None,
        Some((n, j)) => {
            let t = sub_bytes(s, i, j);
            Some((node1(Rule::expression, n, t), j))
        },
    }
}


/// Recognizes the whitespace-separated expressions of the program from
/// position `i` to the end of the source; on failure yields the position at
/// which recognition stopped.
#[verifier::rlimit(100)]
#[verifier::spinoff_prover]
fn p_exprs(s: &Vec<u8>, i: usize) -> (r: Result<Vec<ParseNode>, usize>)
    requires
        i <= s.len(),
    ensures
        match r {
            Ok(es) => sp_exprs(s@, i as int) == Some(deep_view_children(es@, 0)),
            Err(p) => sp_exprs(s@, i as int) is None && p as int == sp_fail_pos(s@, i as int) && p
                <= s.len(),
        },
    decreases s@.len() - i,
{
    let k = skip_ws(s, i);
    if k == s.len() {
        let es: Vec<ParseNode> = Vec::new();
        proof {
            assert(deep_view_children(es@, 0) =~= Seq::<SpecNode>::empty());
        }
        return Ok(es);
    }
    match p_expression(s, k) {
        None => Err(k),
        Some((n, j)) => match p_exprs(s, j) {
            Err(p) => Err(p),
            Ok(mut rest) => {
                let ghost ns = n;
                let ghost restv = rest@;
                rest.insert(0, n);
                proof {
                    lemma_deep_view_children(rest@, 0);
                    lemma_deep_view_children(restv, 0);
                    let lhs = deep_view_children(rest@, 0);
                    let rhs = Seq::empty().push(ns.deep_view()) + deep_view_children(restv, 0);
                    assert(rest@[0] == ns);
                    assert(forall|q: int| 0 <= q < restv.len() ==> rest@[q + 1] == restv[q]);
                    assert forall|q: int| 0 <= q < lhs.len() implies lhs[q] == rhs[q] by {
                        assert(lhs[q] == rest@[q].deep_view());
                        if q == 0 {
                            assert(rhs[0] == ns.deep_view());
                        } else {
                            assert(rest@[q] == restv[q - 1]);
                            assert(rhs[q] == deep_view_children(restv, 0)[q - 1]);
                            assert(deep_view_children(restv, 0)[q - 1] == restv[
                                q - 1
                            ].deep_view());
                        }
                    }
                    assert(lhs =~= rhs);
                }
                Ok(rest)
            },
        },
    }
}

/// The parser of the expression language: source text in, concrete parse
/// tree out.
pub struct TSParser;

impl TSParser {
    /// Parses a whole program: either one root parse tree whose immediate
    /// children are the expression matches in source order (closed by an
    /// end-of-input marker), or a parse failure carrying the position where
    /// recognition stopped and the category expected there. The result is
    /// exactly what the grammar definition recognizes.
    #[verifier::rlimit(60)]
    pub fn parse(source: &Vec<u8>) -> (r: Result<ParseNode, ParseError>)
        ensures
            match r {
                Ok(root) => sp_program(source@) == Some(root.deep_view()),
                Err(e) => sp_program(source@) is None && e.pos as int == sp_fail_pos(source@, 0)
                    && e.expected@ == seq![Rule::expression],
            },
    {
        match p_exprs(source, 0) {
            Err(p) => {
                let mut expected: Vec<Rule> = Vec::new();
                expected.push(Rule::expression);
                proof {
                    assert(expected@ =~= seq![Rule::expression]);
                }
                Err(ParseError { pos: p, expected })
            },
            Ok(mut es) => {
                let ghost esv = es@;
                let eoi = leaf(Rule::EOI, Vec::new());
                let ghost eoiv = eoi;
                es.push(eoi);
                let root = ParseNode {
                    rule: Rule::program,
                    children: es,
                    text: copy_bytes(source),
                };
                proof {
                    lemma_deep_view_children(root.children@, 0);
                    lemma_deep_view_children(esv, 0);
                    let lhs = deep_view_children(root.children@, 0);
                    let rhs = deep_view_children(esv, 0).push(
                        SpecNode::leaf(Rule::EOI, Seq::empty()),
                    );
                    assert(root.children@ == esv.push(eoiv));
                    assert(forall|q: int| 0 <= q < esv.len() ==> root.children@[q] == esv[q]);
                    assert forall|q: int| 0 <= q < lhs.len() implies lhs[q] == rhs[q] by {
                        assert(lhs[q] == root.children@[q].deep_view());
                        if q < esv.len() {
                            assert(root.children@[q] == esv[q]);
                            assert(rhs[q] == deep_view_children(esv, 0)[q]);
                            assert(deep_view_children(esv, 0)[q] == esv[q].deep_view());
                        } else {
                            assert(root.children@[q] == eoiv);
                            assert(eoiv.deep_view() == SpecNode::leaf(Rule::EOI, Seq::empty()));
                        }
                    }
                    assert(lhs =~= rhs);
                    assert(root.deep_view().children =~= rhs);
                }
                Ok(root)
            },
        }
    }
}

} // verus!
