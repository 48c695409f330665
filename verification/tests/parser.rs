use franzplot::parser::{parse_expression, AstError, AstNode, MathFunc, Operator};

fn message(e: &AstError) -> String {
    match e {
        AstError::MissingParenthesis(m)
        | AstError::MultipleExpressions(m)
        | AstError::MultipleOps(m)
        | AstError::MultipleSigns(m)
        | AstError::ImplicitProduct(m)
        | AstError::InternalError(m)
        | AstError::UnreachableMatch(m)
        | AstError::PowAmbiguity(m)
        | AstError::FailedParse(m)
        | AstError::InvalidCharacter(m) => m.clone(),
    }
}

fn rendered(expr: &str) -> String {
    parse_expression(expr).unwrap().to_string()
}

#[test]
fn operator_round_trip() {
    assert_eq!(Operator::from_str("+"), Operator::Plus);
    assert_eq!(Operator::from_str("^"), Operator::Pow);
    assert_eq!(Operator::Times.to_string(), "*");
    assert_eq!(Operator::Div.to_string(), "/");
    assert_eq!(Operator::Minus.to_string(), "-");
}

#[test]
fn math_func_round_trip() {
    assert_eq!(MathFunc::from_str("sqrt"), MathFunc::Sqrt);
    assert_eq!(MathFunc::from_str("acos"), MathFunc::Acos);
    assert_eq!(MathFunc::Log.to_string(), "log");
    assert_eq!(MathFunc::Abs.to_string(), "abs");
}

#[test]
fn sum_and_product_render_in_parentheses() {
    assert_eq!(rendered("sin(x) + 2*y"), "(sin(x) + (2 * y))");
    assert_eq!(rendered("a - b - c"), "(a - b - c)");
}

#[test]
fn single_values_render_as_written() {
    assert_eq!(rendered("  t  "), "t");
    assert_eq!(rendered("2.5e3"), "2.5e3");
    assert_eq!(rendered(".5"), ".5");
    assert_eq!(rendered("((x))"), "x");
}

#[test]
fn powers_signs_and_functions() {
    assert_eq!(rendered("x^2"), "pow(x,2)");
    assert_eq!(rendered("-x^2"), "pow(-(x),2)");
    assert_eq!(rendered("|x - 1|"), "abs((x - 1))");
    assert_eq!(rendered("cos(-t)"), "cos(-(t))");
}

#[test]
fn identifiers_are_found_in_order() {
    let ast = parse_expression("a + b*a - sin(c)").unwrap();
    assert_eq!(ast.find_all_idents(), vec!["a".to_string(), "b".to_string(), "a".to_string(), "c".to_string()]);
    let number = parse_expression("3").unwrap();
    assert!(number.find_all_idents().is_empty());
    assert!(matches!(number, AstNode::Number(_)));
}

#[test]
fn pow_ambiguity_is_refused() {
    let e = parse_expression("a^b^c").unwrap_err();
    assert!(matches!(e, AstError::PowAmbiguity(_)));
    assert_eq!(message(&e), "Three exponentiations create ambiguity, please add parenthesis: `a^b^c`");
    let e = parse_expression("1 + x^2^3^-y * 4").unwrap_err();
    assert_eq!(message(&e), "Three exponentiations create ambiguity, please add parenthesis: `x^2^3^-y`");
    let e = parse_expression("x^2^(3").unwrap_err();
    assert!(!matches!(e, AstError::PowAmbiguity(_)));
}

#[test]
fn implicit_product_is_refused() {
    let e = parse_expression("2x").unwrap_err();
    assert!(matches!(e, AstError::ImplicitProduct(_)));
    assert_eq!(message(&e), "Please avoid using implicit products: `2x`");
}

#[test]
fn multiple_expressions_are_refused() {
    let e = parse_expression("x y").unwrap_err();
    assert!(matches!(e, AstError::MultipleExpressions(_)));
    assert_eq!(message(&e), "Found two or more expressions without any operator within them: `x y`");
}

#[test]
fn multiple_signs_are_refused() {
    let e = parse_expression("--x").unwrap_err();
    assert!(matches!(e, AstError::MultipleSigns(_)));
    assert_eq!(message(&e), "Remove the extra sign from this expression: `--`");
}

#[test]
fn multiple_ops_are_refused() {
    let e = parse_expression("x*/y").unwrap_err();
    assert!(matches!(e, AstError::MultipleOps(_)));
    assert_eq!(message(&e), "Too many operation symbols chained together: `*/`");
}

#[test]
fn function_without_parenthesis_is_refused() {
    let e = parse_expression("sin x").unwrap_err();
    assert!(matches!(e, AstError::MissingParenthesis(_)));
    assert_eq!(message(&e), "Please use parenthesis for mathematical functions: `sin`");
}

#[test]
fn invalid_character_is_refused_first() {
    let e = parse_expression("x + (y$").unwrap_err();
    assert!(matches!(e, AstError::InvalidCharacter(_)));
    assert_eq!(message(&e), "The input contains an invalid symbol: `$`");
}

#[test]
fn unbalanced_and_empty_inputs_fail() {
    for input in ["(x", "x)", "", "   ", "x +", "_x", "."] {
        let e = parse_expression(input).unwrap_err();
        assert!(matches!(e, AstError::FailedParse(_)), "input {:?}", input);
        assert_eq!(
            message(&e),
            "Failed to parse. Please check the expression for mismatched parenthesis or other errors"
        );
    }
}
