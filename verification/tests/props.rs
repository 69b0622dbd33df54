use titleformat_rs::environment::{Environment, value_string};
use titleformat_rs::functions::num;
use titleformat_rs::parser::parse;
use titleformat_rs::program::Program;
use titleformat_rs::types::{Error, Expr};

#[test]
fn parse_twice_identical() {
    let text = "a[%x%$add(1,2)]'%'//c\nend";
    let first = parse(text).unwrap();
    let second = parse(text).unwrap();
    assert_eq!(first, second);
}

#[test]
fn meta_num_counts_and_meta_joins() {
    let m = vec![(
        String::from("artist"),
        vec![String::from("He"), String::from("She"), String::from("It")],
    )];
    let env = Environment::new(m);
    assert_eq!(
        env.meta_num_value(vec![value_string("artist", true)]).unwrap(),
        value_string("3", true)
    );
    assert_eq!(
        env.meta_value(vec![value_string("artist", true)]).unwrap(),
        value_string("He, She, It", true)
    );
}

#[test]
fn conditional_with_multiple_values() {
    let mut prog = Program::new();
    prog.parse("[%a%b]").unwrap();
    let m = vec![(String::from("a"), vec![String::from("2")])];
    assert_eq!(prog.run_with_meta(m).unwrap(), String::from("2b"));
    /* plain text never turns a conditional on by itself */
    assert_eq!(prog.run().unwrap(), String::from(""));
    prog.parse("[%a%]").unwrap();
    assert_eq!(prog.run().unwrap(), String::from(""));
    prog.parse("[b]").unwrap();
    assert_eq!(prog.run().unwrap(), String::from(""));
}

#[test]
fn arithmetic_scenarios() {
    let mut prog = Program::new();
    prog.parse("$add(2,2)").unwrap();
    assert_eq!(prog.run().unwrap(), String::from("4"));
    prog.parse("$add($add(1,1),2)").unwrap();
    assert_eq!(prog.run().unwrap(), String::from("4"));
    prog.parse("$sub(8,2,2)").unwrap();
    assert_eq!(prog.run().unwrap(), String::from("4"));
    prog.parse("$div(32,2,2)").unwrap();
    assert_eq!(prog.run().unwrap(), String::from("8"));
}

#[test]
fn add_overflow_is_out_of_range() {
    let mut prog = Program::new();
    prog.parse("$add(9223372036854775807,1)").unwrap();
    assert_eq!(prog.run(), Err(Error::OutOfRange));
}

#[test]
fn mul_overflow_is_out_of_range() {
    assert_eq!(
        num::mul(vec![
            String::from("9223372036854775807"),
            String::from("2")
        ]),
        Err(Error::OutOfRange)
    );
}

#[test]
fn and_or_need_two_arguments() {
    let mut prog = Program::new();
    prog.parse("$and(x)").unwrap();
    assert_eq!(
        prog.run(),
        Err(Error::InvalidNativeFunctionArgs(String::from("and"), 1))
    );
    prog.parse("$or(x)").unwrap();
    assert_eq!(
        prog.run(),
        Err(Error::InvalidNativeFunctionArgs(String::from("or"), 1))
    );
}

#[test]
fn if_picks_by_condition_truth() {
    let mut prog = Program::new();
    prog.parse("$if(%a%,yes,no)").unwrap();
    let m = vec![(String::from("a"), vec![String::from("x")])];
    assert_eq!(prog.run_with_meta(m).unwrap(), String::from("yes"));
    assert_eq!(prog.run().unwrap(), String::from("no"));
}

#[test]
fn to_int_saturates_huge_magnitudes() {
    assert_eq!(num::to_int("99999999999999999999999"), i64::MAX);
    assert_eq!(num::to_int("-99999999999999999999999"), i64::MIN);
    assert_eq!(num::to_int("9223372036854775807"), i64::MAX);
    assert_eq!(num::to_int("-9223372036854775808"), i64::MIN);
}

#[test]
fn first_metadata_entry_wins() {
    let m = vec![
        (String::from("a"), vec![String::from("first")]),
        (String::from("a"), vec![String::from("second")]),
    ];
    let mut prog = Program::new();
    prog.parse("%a%").unwrap();
    assert_eq!(prog.run_with_meta(m).unwrap(), String::from("first"));
}

#[test]
fn scratch_variables_flow_left_to_right() {
    let mut prog = Program::new();
    prog.parse("$puts(k,v)$get(k)").unwrap();
    assert_eq!(prog.run().unwrap(), String::from("v"));
    prog.parse("$get(k)").unwrap();
    assert_eq!(prog.run().unwrap(), String::from("?"));
    prog.parse("$put(k,v)").unwrap();
    assert_eq!(prog.run().unwrap(), String::from("v"));
}

#[test]
fn noop_renders_nothing() {
    let mut prog = Program::new();
    prog.parse("a$noop(ignored)b").unwrap();
    assert_eq!(prog.run().unwrap(), String::from("ab"));
}

#[test]
fn meta_test_checks_all_fields() {
    let mut prog = Program::new();
    prog.parse("$if($meta_test(a,b),both,missing)").unwrap();
    let both = vec![
        (String::from("a"), vec![String::from("1")]),
        (String::from("b"), vec![String::from("2")]),
    ];
    let one = vec![(String::from("a"), vec![String::from("1")])];
    assert_eq!(prog.run_with_meta(both).unwrap(), String::from("both"));
    assert_eq!(prog.run_with_meta(one).unwrap(), String::from("missing"));
}

#[test]
fn meta_negative_index_is_unknown() {
    let env = Environment::new(vec![(String::from("a"), vec![String::from("0")])]);
    assert_eq!(
        env.meta_value(vec![value_string("a", true), value_string("-1", true)]).unwrap(),
        value_string("?", false)
    );
}

#[test]
fn year_of_ordinal_dates() {
    /* ordinal dates, including day values past 255, keep their year */
    let mut prog = Program::new();
    for text in ["2000-256", "2000-300", "2000-999", "2000300", "-2000-256", "2000-256T10:00"] {
        let m = vec![(String::from("d"), vec![String::from(text)])];
        prog.parse("$year(%d%)").unwrap();
        assert_eq!(prog.run_with_meta(m).unwrap(), String::from(if text.starts_with('-') {
            "-2000"
        } else {
            "2000"
        }));
    }
    /* a colon without a T keeps the reader off the date part entirely */
    let m = vec![(String::from("d"), vec![String::from("2000-256:30")])];
    prog.parse("$year(%d%)").unwrap();
    assert_eq!(prog.run_with_meta(m).unwrap(), String::from(""));
    /* small ordinal days parse as ordinary ordinal dates */
    let cases = [
        ("2000-123", "2000"),
        ("2000-255", "2000"),
        ("9999-255", "9999"),
        ("0000255", "0"),
        ("2000-2567", "2000"),
        ("+2000-300", "2000"),
        ("12345678", "1234"),
        ("2000-25", "2000"),
    ];
    for (text, want) in cases {
        let m = vec![(String::from("d"), vec![String::from(text)])];
        prog.parse("$year(%d%)").unwrap();
        assert_eq!(prog.run_with_meta(m).unwrap(), String::from(want), "input {text}");
    }
}

#[test]
fn year_through_program() {
    let mut prog = Program::new();
    prog.parse("$year(%date%)").unwrap();
    let m = vec![(String::from("date"), vec![String::from("1999-12-31")])];
    assert_eq!(prog.run_with_meta(m).unwrap(), String::from("1999"));
}

#[test]
fn tab_renders_and_empty_args_count_as_one() {
    let mut prog = Program::new();
    prog.parse("a$tab(2)c").unwrap();
    assert_eq!(prog.run().unwrap(), String::from("a\t\tc"));
    /* an empty parameter list is one empty argument, so a zero-argument
     * builtin rejects it */
    prog.parse("$crlf()").unwrap();
    assert_eq!(
        prog.run(),
        Err(Error::InvalidNativeFunctionArgs(String::from("crlf"), 1))
    );
}

#[test]
fn malformed_inputs_are_parse_errors() {
    assert_eq!(parse("%%"), Err(Error::ParseError));
    assert_eq!(parse("%ab"), Err(Error::ParseError));
    assert_eq!(parse("[a"), Err(Error::ParseError));
    assert_eq!(parse("'a"), Err(Error::ParseError));
    assert_eq!(parse("\r"), Err(Error::ParseError));
    assert_eq!(parse("$f"), Err(Error::ParseError));
}

#[test]
fn arbitrary_inputs_always_yield_results() {
    let cases = [
        "",
        "$",
        "%",
        "[",
        "]",
        ")",
        "((((",
        "$$$$((((",
        "[[[$a(,,,)]%",
        "$undefined(x)",
        "$add(a,b)",
        "'''",
        "a//",
        "\n\n\r\n",
        "$if($if($if(x)))",
        "%\u{1F600}%$upper(\u{00DF})",
    ];
    for text in cases {
        let mut prog = Program::new();
        if prog.parse(text).is_ok() {
            /* any well-formed result is fine; it must only never panic */
            let _ = prog.run();
        }
    }
}

#[test]
fn upper_and_lower_fold_case() {
    let mut prog = Program::new();
    prog.parse("$upper(gro\u{00DF})-$lower(GRO\u{00DF})").unwrap();
    assert_eq!(prog.run().unwrap(), String::from("GROSS-gro\u{00DF}"));
}

#[test]
fn select_picks_one_based_position() {
    let mut prog = Program::new();
    prog.parse("$select(2,a,b,c)").unwrap();
    assert_eq!(prog.run().unwrap(), String::from("b"));
    prog.parse("$select(0,a,b,c)").unwrap();
    assert_eq!(prog.run().unwrap(), String::from(""));
}

#[test]
fn undefined_function_aborts_run() {
    let mut prog = Program::new();
    prog.parse("before$nosuch(x)after").unwrap();
    assert_eq!(
        prog.run(),
        Err(Error::UndefinedFunction(String::from("nosuch")))
    );
}

#[test]
fn comment_between_literals_coalesces() {
    assert_eq!(
        parse("a//c\nb").unwrap(),
        vec![Expr::Literal(String::from("ab"))]
    );
}

#[test]
fn error_messages_render() {
    assert_eq!(
        Error::InvalidNativeFunctionArgs(String::from("add"), 1).message(),
        String::from("Syntax Error: Native function 'add' called with the wrong number of arguments 1")
    );
    assert_eq!(
        Error::UndefinedFunction(String::from("f")).message(),
        String::from("Undefined Function: f")
    );
    assert_eq!(
        Error::ParseError.message(),
        String::from("Unable the parse the input. Please recheck.")
    );
    assert_eq!(
        Error::OutOfRange.message(),
        String::from("Arithmetic result out of range.")
    );
}
