use ts_parser::parse;
use ts_parser::parse_expression;
use ts_parser::AstNode;
use ts_parser::Operator;
use ts_parser::ParseNode;
use ts_parser::Rule;
use ts_parser::TSParser;

fn bytes(s: &str) -> Vec<u8> {
    s.as_bytes().to_vec()
}

fn number(s: &str) -> AstNode {
    AstNode::Number(bytes(s))
}

fn binary(left: AstNode, operator: Operator, right: AstNode) -> AstNode {
    AstNode::Binary { left: Box::new(left), right: Box::new(right), operator }
}

fn numeral_value(ast: &AstNode) -> f64 {
    match ast {
        AstNode::Number(text) => String::from_utf8(text.clone()).unwrap().parse().unwrap(),
        _ => panic!("not a number literal"),
    }
}

#[test]
fn parses_integer_numeral() {
    let ast = parse(&bytes("5")).unwrap();
    assert_eq!(ast, vec![number("5")]);
    assert_eq!(numeral_value(&ast[0]), 5.0);
}

#[test]
fn parses_fractional_numeral() {
    let ast = parse(&bytes("3.25")).unwrap();
    assert_eq!(ast, vec![number("3.25")]);
    assert_eq!(numeral_value(&ast[0]), 3.25);
}

#[test]
fn parses_long_numeral() {
    let ast = parse(&bytes("1048576.5")).unwrap();
    assert_eq!(numeral_value(&ast[0]), 1048576.5);
}

#[test]
fn parses_bool_true() {
    assert_eq!(parse(&bytes("true")).unwrap(), vec![AstNode::Bool(true)]);
}

#[test]
fn parses_bool_false() {
    assert_eq!(parse(&bytes("false")).unwrap(), vec![AstNode::Bool(false)]);
}

#[test]
fn truncated_keyword_is_not_bool() {
    assert!(parse(&bytes("tru")).is_err());
    assert!(parse(&bytes("fals")).is_err());
}

#[test]
fn keyword_with_trailing_letters_fails() {
    assert!(parse(&bytes("truex")).is_err());
}

#[test]
fn parses_every_binary_operator() {
    let cases = [
        ("1 != 2", Operator::NotEqual),
        ("1 == 2", Operator::DoubleEqual),
        ("1 === 2", Operator::TripleEqual),
        ("1 > 2", Operator::GreaterThan),
        ("1 >= 2", Operator::GreaterThanEqual),
        ("1 < 2", Operator::LessThan),
        ("1 <= 2", Operator::LessThanEqual),
        ("1 - 2", Operator::Minus),
        ("1 + 2", Operator::Plus),
        ("1 * 2", Operator::Multiply),
        ("1 / 2", Operator::Divide),
    ];
    for (source, op) in cases {
        let ast = parse(&bytes(source)).unwrap();
        assert_eq!(ast, vec![binary(number("1"), op, number("2"))], "source: {}", source);
    }
}

#[test]
fn parses_unary_minus() {
    let ast = parse(&bytes("-4")).unwrap();
    assert_eq!(
        ast,
        vec![AstNode::Unary { operator: Operator::Minus, right: Box::new(number("4")) }]
    );
}

#[test]
fn parses_unary_invert() {
    let ast = parse(&bytes("!true")).unwrap();
    assert_eq!(
        ast,
        vec![AstNode::Unary { operator: Operator::Invert, right: Box::new(AstNode::Bool(true)) }]
    );
}

#[test]
fn parses_doubled_unary() {
    let ast = parse(&bytes("--4")).unwrap();
    assert_eq!(
        ast,
        vec![AstNode::Unary {
            operator: Operator::Minus,
            right: Box::new(AstNode::Unary {
                operator: Operator::Minus,
                right: Box::new(number("4")),
            }),
        }]
    );
}

#[test]
fn grouping_is_kept_distinct() {
    let ast = parse(&bytes("(5)")).unwrap();
    assert_eq!(ast, vec![AstNode::Grouping(Box::new(number("5")))]);
    assert_ne!(ast, parse(&bytes("5")).unwrap());
}

#[test]
fn parses_nested_grouping() {
    let ast = parse(&bytes("((true))")).unwrap();
    assert_eq!(
        ast,
        vec![AstNode::Grouping(Box::new(AstNode::Grouping(Box::new(AstNode::Bool(true)))))]
    );
}

#[test]
fn multiplication_binds_tighter_than_addition() {
    let ast = parse(&bytes("1 + 2 * 3")).unwrap();
    assert_eq!(
        ast,
        vec![binary(
            number("1"),
            Operator::Plus,
            binary(number("2"), Operator::Multiply, number("3")),
        )]
    );
}

#[test]
fn grouping_overrides_precedence() {
    let ast = parse(&bytes("(1 + 2) * 3")).unwrap();
    assert_eq!(
        ast,
        vec![binary(
            AstNode::Grouping(Box::new(binary(number("1"), Operator::Plus, number("2")))),
            Operator::Multiply,
            number("3"),
        )]
    );
}

#[test]
fn bare_literal_has_no_spurious_wrapper() {
    let ast = parse(&bytes("5")).unwrap();
    assert!(matches!(ast[0], AstNode::Number(_)));
}

#[test]
fn lone_operator_is_a_parse_failure() {
    let err = parse(&bytes("+")).unwrap_err();
    assert_eq!(err.pos, 0);
    assert_eq!(err.expected, vec![Rule::expression]);
}

#[test]
fn trailing_operator_is_a_parse_failure() {
    let err = parse(&bytes("1 +")).unwrap_err();
    assert_eq!(err.pos, 2);
}

#[test]
fn unclosed_grouping_is_a_parse_failure() {
    assert!(parse(&bytes("(1")).is_err());
}

#[test]
fn parses_multi_expression_program_in_order() {
    let ast = parse(&bytes("1 2 3")).unwrap();
    assert_eq!(ast, vec![number("1"), number("2"), number("3")]);
}

#[test]
fn parses_empty_program() {
    assert_eq!(parse(&bytes("")).unwrap(), vec![]);
    assert_eq!(parse(&bytes(" \t\r\n")).unwrap(), vec![]);
}

#[test]
fn parsing_is_deterministic() {
    let source = bytes("!(1 <= 2) 4.5 (true)");
    assert_eq!(parse(&source).unwrap(), parse(&source).unwrap());
}

#[test]
fn parses_comparison_of_terms() {
    let ast = parse(&bytes("5 - 4 > 1")).unwrap();
    assert_eq!(
        ast,
        vec![binary(
            binary(number("5"), Operator::Minus, number("4")),
            Operator::GreaterThan,
            number("1"),
        )]
    );
}

#[test]
fn classifier_maps_every_operator_category() {
    let cases = [
        (Rule::not_equal, Operator::NotEqual),
        (Rule::double_equal, Operator::DoubleEqual),
        (Rule::triple_equal, Operator::TripleEqual),
        (Rule::greater_than, Operator::GreaterThan),
        (Rule::greater_than_equal, Operator::GreaterThanEqual),
        (Rule::less_than, Operator::LessThan),
        (Rule::less_than_equal, Operator::LessThanEqual),
        (Rule::plus, Operator::Plus),
        (Rule::minus, Operator::Minus),
        (Rule::multiply, Operator::Multiply),
        (Rule::divide, Operator::Divide),
        (Rule::inverse, Operator::Invert),
    ];
    for (rule, op) in cases {
        assert_eq!(Operator::from(rule), op);
    }
}

#[test]
fn parse_tree_has_expression_children_and_eoi() {
    let root = TSParser::parse(&bytes("5 true")).unwrap();
    assert_eq!(root.rule, Rule::program);
    assert_eq!(root.text, bytes("5 true"));
    assert_eq!(root.children.len(), 3);
    assert_eq!(root.children[0].rule, Rule::expression);
    assert_eq!(root.children[1].rule, Rule::expression);
    assert_eq!(root.children[2].rule, Rule::EOI);
}

#[test]
fn lowers_a_hand_built_literal_node() {
    let node = ParseNode { rule: Rule::NUMBER, children: vec![], text: bytes("7") };
    assert_eq!(parse_expression(&node), number("7"));
}

#[test]
fn lowers_a_hand_built_pass_through_node() {
    let leaf = ParseNode { rule: Rule::BOOL_TRUE, children: vec![], text: bytes("true") };
    let level = ParseNode { rule: Rule::term, children: vec![leaf], text: bytes("true") };
    assert_eq!(parse_expression(&level), AstNode::Bool(true));
}

#[test]
fn whitespace_is_skipped_between_tokens() {
    let ast = parse(&bytes("  ( 1\t+\n2 )  ")).unwrap();
    assert_eq!(
        ast,
        vec![AstNode::Grouping(Box::new(binary(number("1"), Operator::Plus, number("2"))))]
    );
}

#[test]
fn parses_mixed_program() {
    let ast = parse(&bytes("!false 2.5 (3)")).unwrap();
    assert_eq!(
        ast,
        vec![
            AstNode::Unary { operator: Operator::Invert, right: Box::new(AstNode::Bool(false)) },
            number("2.5"),
            AstNode::Grouping(Box::new(number("3"))),
        ]
    );
}

#[test]
fn number_with_trailing_dot_is_a_parse_failure() {
    assert!(parse(&bytes("1.")).is_err());
    assert!(parse(&bytes(".5")).is_err());
}
