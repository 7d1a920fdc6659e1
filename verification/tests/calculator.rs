use agent_platform::calc::{
    apply_op, eval_rpn, evaluate, to_rpn, tokenize, BinOp, CalcError, RpnItem, Token,
};

#[test]
fn precedence_and_parentheses() {
    assert_eq!(evaluate("2 + 3 * 4"), Ok(14));
    assert_eq!(evaluate("(2 + 3) * 4"), Ok(20));
    assert_eq!(evaluate("(10 + 5) / 3"), Ok(5));
    assert_eq!(evaluate("10 - 4 - 3"), Ok(3));
    assert_eq!(evaluate("100 / 10 / 5"), Ok(2));
    assert_eq!(evaluate("((7))"), Ok(7));
    assert_eq!(evaluate("2*3+4*5"), Ok(26));
}

#[test]
fn errors() {
    assert_eq!(evaluate(""), Err(CalcError::Syntax));
    assert_eq!(evaluate("2 +"), Err(CalcError::Syntax));
    assert_eq!(evaluate("(2 + 3"), Err(CalcError::Syntax));
    assert_eq!(evaluate("2 3"), Err(CalcError::Syntax));
    assert_eq!(evaluate("-2"), Err(CalcError::Syntax));
    assert_eq!(evaluate("2 ^ 3"), Err(CalcError::InvalidCharacter));
    assert_eq!(evaluate("2.5 + 1"), Err(CalcError::InvalidCharacter));
    assert_eq!(evaluate("1 / 0"), Err(CalcError::DivisionByZero));
    assert_eq!(evaluate("7 / 2"), Err(CalcError::InexactDivision));
    assert_eq!(evaluate("9223372036854775807 + 1"), Err(CalcError::Overflow));
    assert_eq!(evaluate("9223372036854775808"), Err(CalcError::NumberTooLarge));
    assert_eq!(evaluate("9223372036854775807"), Ok(i64::MAX));
    assert_eq!(evaluate("0 - 9223372036854775807 - 1"), Ok(i64::MIN));
    assert_eq!(evaluate("(0 - 9223372036854775807 - 1) / (0 - 1)"), Err(CalcError::Overflow));
}

#[test]
fn tokens_and_postfix() {
    let t = tokenize("2 + 3 * 4").unwrap();
    assert_eq!(t, vec![Token::Num(2), Token::Plus, Token::Num(3), Token::Star, Token::Num(4)]);
    let rpn = to_rpn(&t).unwrap();
    assert_eq!(
        rpn,
        vec![
            RpnItem::Push(2),
            RpnItem::Push(3),
            RpnItem::Push(4),
            RpnItem::Apply(BinOp::Mul),
            RpnItem::Apply(BinOp::Add)
        ]
    );
    assert_eq!(eval_rpn(&rpn), Ok(14));
    assert_eq!(eval_rpn(&vec![RpnItem::Apply(BinOp::Add)]), Err(CalcError::Syntax));
    assert_eq!(eval_rpn(&vec![RpnItem::Push(1), RpnItem::Push(2)]), Err(CalcError::Syntax));
    assert_eq!(to_rpn(&vec![Token::RParen]), Err(CalcError::Syntax));
}

#[test]
fn exact_division_with_signs() {
    assert_eq!(apply_op(BinOp::Div, -6, 3), Ok(-2));
    assert_eq!(apply_op(BinOp::Div, 6, -3), Ok(-2));
    assert_eq!(apply_op(BinOp::Div, -6, -3), Ok(2));
    assert_eq!(apply_op(BinOp::Div, -7, 2), Err(CalcError::InexactDivision));
    assert_eq!(apply_op(BinOp::Div, i64::MIN, -1), Err(CalcError::Overflow));
    assert_eq!(apply_op(BinOp::Div, i64::MIN, 1), Ok(i64::MIN));
    assert_eq!(apply_op(BinOp::Mul, i64::MAX, 2), Err(CalcError::Overflow));
    assert_eq!(apply_op(BinOp::Sub, i64::MIN, 1), Err(CalcError::Overflow));
}
