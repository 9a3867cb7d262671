use ranni::ast::{Assign, Block, Expr, Func, Hint, Ident, Let, LetQual, Literal, Pragma, Record};
use ranni::errors::ErrorReason;
use ranni::parser::parse;

fn lit(v: u64) -> Expr {
    Expr::Literal(Literal::Int(v))
}

fn lookup(name: &str) -> Expr {
    Expr::Lookup(Ident(name.to_string()))
}

fn bare_assign(name: &str, value: Option<Expr>) -> Assign {
    Assign { name: Ident(name.to_string()), hint: None, value: value.map(Box::new) }
}

#[test]
fn precedence_mul_binds_tighter_than_add() {
    let got = parse("1 + 2 * 3").unwrap();
    let want = Expr::Add(
        Box::new(lit(1)),
        Box::new(Expr::Mul(Box::new(lit(2)), Box::new(lit(3)))),
    );
    assert_eq!(got, want);
}

#[test]
fn left_associativity_of_mul() {
    let got = parse("1 * 2 * 3").unwrap();
    let want = Expr::Mul(
        Box::new(Expr::Mul(Box::new(lit(1)), Box::new(lit(2)))),
        Box::new(lit(3)),
    );
    assert_eq!(got, want);
}

#[test]
fn exponent_binds_tighter_and_is_left_associative() {
    let got = parse("2 ^ 3 * 4").unwrap();
    let want = Expr::Mul(
        Box::new(Expr::Exp(Box::new(lit(2)), Box::new(lit(3)))),
        Box::new(lit(4)),
    );
    assert_eq!(got, want);
    let got = parse("2 ^ 3 ^ 4").unwrap();
    let want = Expr::Exp(
        Box::new(Expr::Exp(Box::new(lit(2)), Box::new(lit(3)))),
        Box::new(lit(4)),
    );
    assert_eq!(got, want);
}

// The grammar declares the subtraction rule with the same operator
// symbol as addition, so `+` always yields Add and Sub is unreachable.
// This test documents that actual behavior.
#[test]
fn plus_always_parses_as_add_never_sub() {
    let got = parse("1 + 2").unwrap();
    let want = Expr::Add(Box::new(lit(1)), Box::new(lit(2)));
    assert_eq!(got, want);
    assert!(!matches!(got, Expr::Sub(_, _)));
}

#[test]
fn insignificant_separators_commas_equal_spaces() {
    let a = parse("(1, 2)").unwrap();
    let b = parse("(1 2)").unwrap();
    assert_eq!(a, b);
    let want = Expr::Record(Record { pos: vec![lit(1), lit(2)], named: vec![] });
    assert_eq!(a, want);
}

#[test]
fn separators_allowed_between_any_tokens() {
    let a = parse("let x = 5 x").unwrap();
    let b = parse(",let,x,=,5,\t\n,x,").unwrap();
    assert_eq!(a, b);
}

#[test]
fn parsing_is_deterministic_on_equal_text() {
    let a = parse("fn (x) x + 1 * 2");
    let b = parse("fn (x) x + 1 * 2");
    assert_eq!(a, b);
}

#[test]
fn empty_record_fails() {
    let errs = parse("()").unwrap_err();
    assert!(!errs.is_empty());
    assert_eq!(errs[0].reason, ErrorReason::EmptyRecord);
}

#[test]
fn record_with_only_named_assignments_fails() {
    let errs = parse("(x: 1)").unwrap_err();
    assert!(!errs.is_empty());
    assert_eq!(errs[0].reason, ErrorReason::EmptyRecord);
}

#[test]
fn statement_chaining_let_with_rest() {
    let got = parse("let x = 5 x").unwrap();
    let want = Expr::Let(Let {
        qualifier: None,
        assign: bare_assign("x", Some(lit(5))),
        rest: Some(Box::new(lookup("x"))),
    });
    assert_eq!(got, want);
}

#[test]
fn let_without_rest_is_final() {
    let got = parse("let x = 5").unwrap();
    let want = Expr::Let(Let {
        qualifier: None,
        assign: bare_assign("x", Some(lit(5))),
        rest: None,
    });
    assert_eq!(got, want);
}

#[test]
fn let_qualifier_case_and_method() {
    let got = parse("let case x = 5").unwrap();
    match got {
        Expr::Let(l) => assert_eq!(l.qualifier, Some(LetQual::Case)),
        other => panic!("expected a let, got {:?}", other),
    }
    let got = parse("let method x = 5").unwrap();
    match got {
        Expr::Let(l) => assert_eq!(l.qualifier, Some(LetQual::Method)),
        other => panic!("expected a let, got {:?}", other),
    }
}

#[test]
fn let_with_hint() {
    let got = parse("let x: u64 = 5").unwrap();
    let want = Expr::Let(Let {
        qualifier: None,
        assign: Assign {
            name: Ident("x".to_string()),
            hint: Some(Hint { value: Box::new(lookup("u64")) }),
            value: Some(Box::new(lit(5))),
        },
        rest: None,
    });
    assert_eq!(got, want);
}

#[test]
fn pragma_chains_like_let() {
    let got = parse("pragma x = 1 x").unwrap();
    let want = Expr::Pragma(Pragma {
        assign: bare_assign("x", Some(lit(1))),
        rest: Some(Box::new(lookup("x"))),
    });
    assert_eq!(got, want);
}

#[test]
fn function_literal_with_trailing_expression_body() {
    let got = parse("fn (x) x").unwrap();
    let want = Expr::Func(Func {
        args: Some(Record { pos: vec![lookup("x")], named: vec![] }),
        ret: None,
        body: Block::Arrow(Box::new(lookup("x"))),
    });
    assert_eq!(got, want);
}

#[test]
fn function_literal_with_arrow_body() {
    let got = parse("fn (x) => x").unwrap();
    let want = Expr::Func(Func {
        args: Some(Record { pos: vec![lookup("x")], named: vec![] }),
        ret: None,
        body: Block::Arrow(Box::new(lookup("x"))),
    });
    assert_eq!(got, want);
}

#[test]
fn function_literal_with_return_type_and_body_block() {
    let got = parse("fn (x) u64 { x }").unwrap();
    let want = Expr::Func(Func {
        args: Some(Record { pos: vec![lookup("x")], named: vec![] }),
        ret: Some(Box::new(lookup("u64"))),
        body: Block::Body(vec![lookup("x")]),
    });
    assert_eq!(got, want);
}

#[test]
fn malformed_unterminated_record_gives_errors() {
    let errs = parse("(1").unwrap_err();
    assert!(!errs.is_empty());
    assert_eq!(errs[0].reason, ErrorReason::ExpectedRParen);
}

#[test]
fn record_mixes_positional_then_named() {
    let got = parse("(1, x: 2, y = 3, z)").unwrap();
    let want = Expr::Record(Record {
        pos: vec![lit(1)],
        named: vec![
            Assign {
                name: Ident("x".to_string()),
                hint: Some(Hint { value: Box::new(lit(2)) }),
                value: None,
            },
            bare_assign("y", Some(lit(3))),
            bare_assign("z", None),
        ],
    });
    assert_eq!(got, want);
}

#[test]
fn function_call_requires_adjacent_record() {
    let got = parse("f (1)").unwrap();
    let want = Expr::FunCall(
        Ident("f".to_string()),
        Record { pos: vec![lit(1)], named: vec![] },
    );
    assert_eq!(got, want);
    assert_eq!(parse("f").unwrap(), lookup("f"));
}

#[test]
fn struct_form_takes_a_block() {
    let got = parse("struct { 1 }").unwrap();
    assert_eq!(got, Expr::Struct(Block::Body(vec![lit(1)])));
    let errs = parse("struct 5").unwrap_err();
    assert_eq!(errs[0].reason, ErrorReason::ExpectedBlock);
}

#[test]
fn block_body_sequences_expressions() {
    let got = parse("{ 1 2 }").unwrap();
    assert_eq!(got, Expr::Block(Block::Body(vec![lit(1), lit(2)])));
    assert_eq!(parse("{}").unwrap(), Expr::Block(Block::Body(vec![])));
}

#[test]
fn unterminated_block_gives_error() {
    let errs = parse("{ 1").unwrap_err();
    assert_eq!(errs[0].reason, ErrorReason::ExpectedRBrace);
}

#[test]
fn trailing_input_is_an_error() {
    let errs = parse("1 2").unwrap_err();
    assert_eq!(errs[0].reason, ErrorReason::TrailingInput);
    assert_eq!(errs[0].position, 2);
}

#[test]
fn empty_input_is_an_error() {
    let errs = parse("").unwrap_err();
    assert!(!errs.is_empty());
    assert_eq!(errs[0].reason, ErrorReason::ExpectedExpr);
}

#[test]
fn keyword_alone_cannot_start_an_expression() {
    let errs = parse("case").unwrap_err();
    assert_eq!(errs[0].reason, ErrorReason::ExpectedExpr);
}

#[test]
fn unexpected_character_is_a_lexical_error() {
    let errs = parse("@").unwrap_err();
    assert_eq!(errs[0].reason, ErrorReason::UnexpectedChar);
    assert_eq!(errs[0].position, 0);
}

#[test]
fn signed_integer_literal_is_rejected() {
    let errs = parse("-1").unwrap_err();
    assert_eq!(errs[0].reason, ErrorReason::NegativeInt);
}

#[test]
fn oversized_integer_literal_is_rejected() {
    let errs = parse("99999999999999999999999").unwrap_err();
    assert_eq!(errs[0].reason, ErrorReason::IntTooLarge);
}

#[test]
fn integer_digit_group_separators_are_stripped() {
    assert_eq!(parse("1_000").unwrap(), lit(1000));
    assert_eq!(parse("18_446_744_073_709_551_615").unwrap(), lit(u64::MAX));
}

#[test]
fn float_literal_keeps_normalized_text() {
    let got = parse("1_2.5e3").unwrap();
    assert_eq!(got, Expr::Literal(Literal::Float("12.5e3".to_string())));
    let got = parse("-0.5").unwrap();
    assert_eq!(got, Expr::Literal(Literal::Float("-0.5".to_string())));
}

#[test]
fn nested_records_and_arithmetic() {
    let got = parse("(1 + 2, f (3))").unwrap();
    let want = Expr::Record(Record {
        pos: vec![
            Expr::Add(Box::new(lit(1)), Box::new(lit(2))),
            Expr::FunCall(Ident("f".to_string()), Record { pos: vec![lit(3)], named: vec![] }),
        ],
        named: vec![],
    });
    assert_eq!(got, want);
}
