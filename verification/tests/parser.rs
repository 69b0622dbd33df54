use titleformat_rs::parser::parse;
use titleformat_rs::types::Error;
use titleformat_rs::types::Expr::{Conditional, FuncCall, Literal, Variable};

#[test]
fn test_empty() {
    let parsed = parse("").unwrap();
    assert_eq!(parsed, vec![]);
}

#[test]
fn test_variable() {
    let parsed = parse("%ab%").unwrap();
    assert_eq!(parsed, vec![Variable(String::from("ab"))]);
}

#[test]
fn test_empty_funccall() {
    let parsed = parse("$ab()").unwrap();
    assert_eq!(parsed, vec![FuncCall(String::from("ab"), vec![vec![]])]);
}

#[test]
fn test_funccall_variable() {
    let parsed = parse("$ab(%ba%)").unwrap();
    assert_eq!(
        parsed,
        vec![FuncCall(
            String::from("ab"),
            vec![vec![Variable(String::from("ba"))]]
        )]
    );
}

#[test]
fn test_funccall_funccall() {
    let parsed = parse("$ab($ba())").unwrap();
    assert_eq!(
        parsed,
        vec![FuncCall(
            String::from("ab"),
            vec![vec![FuncCall(String::from("ba"), vec![vec![]])]]
        )]
    );
}

#[test]
fn test_funccall_complex() {
    let parsed = parse("$ab($cd(%e%,fg),hi)").unwrap();
    assert_eq!(
        parsed,
        vec![FuncCall(
            String::from("ab"),
            vec![
                vec![FuncCall(
                    String::from("cd"),
                    vec![
                        vec![Variable(String::from("e"))],
                        vec![Literal(String::from("fg"))]
                    ]
                )],
                vec![Literal(String::from("hi"))]
            ]
        )]
    );
}

#[test]
fn test_literal_variable() {
    let parsed = parse("ab").unwrap();
    assert_eq!(parsed, vec![Literal(String::from("ab"))]);
}

#[test]
fn test_literal() {
    let parsed = parse("ab -_=+").unwrap();
    assert_eq!(parsed, vec![Literal(String::from("ab -_=+"))]);
}

#[test]
fn test_escaped_literals() {
    assert_eq!(parse("\'%\'").unwrap(), vec![Literal(String::from("%"))]);
    assert_eq!(parse("\'$\'").unwrap(), vec![Literal(String::from("$"))]);
    assert_eq!(parse("\'[\'").unwrap(), vec![Literal(String::from("["))]);
    assert_eq!(parse("\']\'").unwrap(), vec![Literal(String::from("]"))]);
    assert_eq!(parse("\'\'").unwrap(), vec![Literal(String::from("\'"))]);
}

#[test]
fn test_function_newlines() {
    /* all newlines between tokens are ignored */
    assert_eq!(
        parse("$f(var)\n").unwrap(),
        vec![FuncCall(
            String::from("f"),
            vec![vec![Literal(String::from("var"))]]
        )]
    );
    assert_eq!(
        parse("$f(\nvar)").unwrap(),
        vec![FuncCall(
            String::from("f"),
            vec![vec![Literal(String::from("var"))]]
        )]
    );
    assert_eq!(
        parse("$f(\nvar\r\n)").unwrap(),
        vec![FuncCall(
            String::from("f"),
            vec![vec![Literal(String::from("var"))]]
        )]
    );
}

#[test]
fn test_function_comment() {
    assert_eq!(
        parse("$f(var//\n)").unwrap(),
        vec![FuncCall(
            String::from("f"),
            vec![vec![Literal(String::from("var"))]]
        )]
    );
}

#[test]
fn test_unclosed_function() {
    assert_eq!(parse("$f(var"), Err(Error::ParseError),);
}

#[test]
fn test_empty_comment() {
    assert_eq!(parse("//\n").unwrap(), vec![]);
}

#[test]
fn test_comment() {
    let mut parsed = parse("// comment\n").unwrap();
    assert_eq!(parsed, vec![]);
    parsed = parse("// comment\r\n").unwrap();
    assert_eq!(parsed, vec![]);
    parsed = parse("// comment").unwrap();
    assert_eq!(parsed, vec![]);
}

#[test]
fn test_possibly_special_literals() {
    let mut parsed = parse(",").unwrap();
    assert_eq!(parsed, vec![Literal(String::from(","))]);
    parsed = parse("<").unwrap();
    assert_eq!(parsed, vec![Literal(String::from("<"))]);
    parsed = parse(">").unwrap();
    assert_eq!(parsed, vec![Literal(String::from(">"))]);
    parsed = parse("(").unwrap();
    assert_eq!(parsed, vec![Literal(String::from("("))]);
    parsed = parse(")").unwrap();
    assert_eq!(parsed, vec![Literal(String::from(")"))]);
    parsed = parse("/").unwrap();
    assert_eq!(parsed, vec![Literal(String::from("/"))]);
}

#[test]
fn test_combined_special() {
    /* tests that special characters in literals are combined correctly */
    let parsed = parse("a,b,c(d]").unwrap();
    assert_eq!(parsed, vec![Literal(String::from("a,b,c(d]"))]);
}

#[test]
fn test_conditional_special() {
    let parsed = parse("[a),(]").unwrap();
    assert_eq!(
        parsed,
        vec![Conditional(vec![Literal(String::from("a),("))])]
    );
}

#[test]
fn test_function_special() {
    let parsed = parse("$a(b(])").unwrap();
    assert_eq!(
        parsed,
        vec![FuncCall(
            String::from("a"),
            vec![vec![Literal(String::from("b(]"))]]
        )]
    );
}

#[test]
fn test_conditional_literal() {
    let parsed = parse("[a]").unwrap();
    assert_eq!(parsed, vec![Conditional(vec![Literal(String::from("a"))])]);
}

#[test]
fn test_conditional_variable() {
    let parsed = parse("[%a%]").unwrap();
    assert_eq!(parsed, vec![Conditional(vec![Variable(String::from("a"))])]);
}

#[test]
fn test_conditional_variable_literal() {
    let parsed = parse("[%a%b]").unwrap();
    assert_eq!(
        parsed,
        vec![Conditional(vec![
            Variable(String::from("a")),
            Literal(String::from("b")),
        ])]
    );
}

#[test]
fn test_conditional_function() {
    let parsed = parse("[$a(b)]").unwrap();
    assert_eq!(
        parsed,
        vec![Conditional(vec![FuncCall(
            String::from("a"),
            vec![vec![Literal(String::from("b"))]]
        )])]
    );
}

#[test]
fn test_conditional_conditional() {
    let parsed = parse("[[%a%]]").unwrap();
    assert_eq!(
        parsed,
        vec![Conditional(vec![Conditional(vec![Variable(
            String::from("a")
        )])])]
    );
}

#[test]
fn test_func_conditional() {
    let parsed = parse("$a([%b%])").unwrap();
    assert_eq!(
        parsed,
        vec![FuncCall(
            String::from("a"),
            vec![vec![Conditional(vec![Variable(String::from("b"))])]]
        )]
    );
}

#[test]
fn test_func_empty_arg() {
    let parsed = parse(r"$a(,)").unwrap();
    assert_eq!(
        parsed,
        vec![FuncCall(String::from("a"), vec![vec![], vec![],])]
    );
}
