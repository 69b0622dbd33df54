use titleformat_rs::environment::value_string;
use titleformat_rs::functions::control;
use titleformat_rs::types::Error;

#[test]
fn and_wrong_n_arguments() {
    assert_eq!(
        control::and(vec![value_string("", false)]).err().unwrap(),
        Error::InvalidNativeFunctionArgs(String::from("and"), 1)
    );
}

#[test]
fn and_test_true() {
    assert_eq!(
        control::and(vec![value_string("", true), value_string("", true)]).unwrap(),
        value_string("", true)
    );
}

#[test]
fn and_test_false() {
    assert_eq!(
        control::and(vec![value_string("", false), value_string("", true)]).unwrap(),
        value_string("", false)
    );
}

#[test]
fn or_wrong_n_arguments() {
    assert_eq!(
        control::or(vec![value_string("", false)]).err().unwrap(),
        Error::InvalidNativeFunctionArgs(String::from("or"), 1)
    );
}

#[test]
fn or_test_true() {
    assert_eq!(
        control::or(vec![value_string("", true), value_string("", false)]).unwrap(),
        value_string("", true)
    );
    assert_eq!(
        control::or(vec![value_string("", false), value_string("", true)]).unwrap(),
        value_string("", true)
    );
}

#[test]
fn or_test_false() {
    assert_eq!(
        control::or(vec![value_string("", false), value_string("", false)]).unwrap(),
        value_string("", false)
    );
}

#[test]
fn xor_wrong_n_arguments() {
    assert_eq!(
        control::xor(vec![value_string("", false)]).err().unwrap(),
        Error::InvalidNativeFunctionArgs(String::from("xor"), 1)
    );
}

#[test]
fn xor_test_false() {
    assert_eq!(
        control::xor(vec![value_string("", true), value_string("", true)]).unwrap(),
        value_string("", false)
    );
}

#[test]
fn xor_test_true() {
    assert_eq!(
        control::xor(vec![value_string("", false), value_string("", true)]).unwrap(),
        value_string("", true)
    );
}

#[test]
fn test_multi_true() {
    assert_eq!(
        control::xor(vec![
            value_string("", true),
            value_string("", true),
            value_string("", true)
        ])
        .unwrap(),
        value_string("", true)
    );
}

#[test]
fn test_multi_almost_false() {
    assert_eq!(
        control::xor(vec![
            value_string("", false),
            value_string("", true),
            value_string("", false)
        ])
        .unwrap(),
        value_string("", true)
    );
}

#[test]
fn not_wrong_n_arguments() {
    assert_eq!(
        control::not(vec![value_string("", false), value_string("", false)])
            .err()
            .unwrap(),
        Error::InvalidNativeFunctionArgs(String::from("not"), 2)
    );
}

#[test]
fn not_test_true() {
    assert_eq!(
        control::not(vec![value_string("", true)]).unwrap(),
        value_string("", false)
    );
}

#[test]
fn not_test_false() {
    assert_eq!(
        control::not(vec![value_string("", false)]).unwrap(),
        value_string("", true)
    );
}

#[test]
fn if__wrong_n_arguments() {
    assert_eq!(
        control::if_(vec![value_string("blah", false)]).err().unwrap(),
        Error::InvalidNativeFunctionArgs(String::from("if"), 1)
    );
}

#[test]
fn if_false_default() {
    assert_eq!(
        control::if_(vec![value_string("blah", false), value_string("true", true)]).unwrap(),
        value_string("", false)
    );
}

#[test]
fn if_true_default() {
    assert_eq!(
        control::if_(vec![value_string("blah", true), value_string("true", true)]).unwrap(),
        value_string("true", true)
    );
}

#[test]
fn if_false_else() {
    assert_eq!(
        control::if_(vec![
            value_string("blah", false),
            value_string("true", true),
            value_string("false", true),
        ])
        .unwrap(),
        value_string("false", true)
    );
}

#[test]
fn if_true_else() {
    assert_eq!(
        control::if_(vec![
            value_string("blah", true),
            value_string("true", true),
            value_string("false", true),
        ])
        .unwrap(),
        value_string("true", true)
    );
}

#[test]
fn if2_wrong_n_arguments() {
    assert_eq!(
        control::if2(vec![value_string("blah", false)]).err().unwrap(),
        Error::InvalidNativeFunctionArgs(String::from("if2"), 1)
    );
}

#[test]
fn if2_false() {
    assert_eq!(
        control::if2(vec![value_string("blah", false), value_string("true", true)]).unwrap(),
        value_string("true", true)
    );
}

#[test]
fn if2_true() {
    assert_eq!(
        control::if2(vec![value_string("blah", true), value_string("true", true)]).unwrap(),
        value_string("blah", true)
    );
}

#[test]
fn if3_wrong_n_arguments() {
    assert_eq!(
        control::if3(vec![value_string("blah", false)]).err().unwrap(),
        Error::InvalidNativeFunctionArgs(String::from("if3"), 1)
    );
}

#[test]
fn if3_2() {
    assert_eq!(
        control::if3(vec![value_string("blah", false), value_string("true", true)]).unwrap(),
        value_string("true", true)
    );
}

#[test]
fn if3_5() {
    assert_eq!(
        control::if3(vec![
            value_string("blah", false),
            value_string("blah", false),
            value_string("blah", false),
            value_string("blah", false),
            value_string("true", true)
        ])
        .unwrap(),
        value_string("true", true)
    );
}

#[test]
fn if3_else() {
    assert_eq!(
        control::if3(vec![
            value_string("blah", false),
            value_string("blah", false),
            value_string("blah", false),
            value_string("blah", false),
            value_string("true", false)
        ])
        .unwrap(),
        value_string("true", false)
    );
}

#[test]
fn ifequal_wrong_n_arguments() {
    assert_eq!(
        control::ifequal(vec![value_string("blah", false)]).err().unwrap(),
        Error::InvalidNativeFunctionArgs(String::from("ifequal"), 1)
    );
}

#[test]
fn ifequal_equal() {
    assert_eq!(
        control::ifequal(vec![
            value_string("1", false),
            value_string("1", true),
            value_string("true", false),
            value_string("false", false)
        ])
        .unwrap(),
        value_string("true", false)
    );
}

#[test]
fn non_equal() {
    assert_eq!(
        control::ifequal(vec![
            value_string("1", false),
            value_string("2", true),
            value_string("true", false),
            value_string("false", false)
        ])
        .unwrap(),
        value_string("false", false)
    );
}

#[test]
fn ifgreater_wrong_n_arguments() {
    assert_eq!(
        control::ifgreater(vec![value_string("blah", false)]).err().unwrap(),
        Error::InvalidNativeFunctionArgs(String::from("ifgreater"), 1)
    );
}

#[test]
fn greater() {
    assert_eq!(
        control::ifgreater(vec![
            value_string("2", false),
            value_string("1", true),
            value_string("true", false),
            value_string("false", false)
        ])
        .unwrap(),
        value_string("true", false)
    );
}

#[test]
fn lesser() {
    assert_eq!(
        control::ifgreater(vec![
            value_string("1", false),
            value_string("2", true),
            value_string("true", false),
            value_string("false", false)
        ])
        .unwrap(),
        value_string("false", false)
    );
}

#[test]
fn ifgreater_equal() {
    assert_eq!(
        control::ifgreater(vec![
            value_string("1", false),
            value_string("1", true),
            value_string("true", false),
            value_string("false", false)
        ])
        .unwrap(),
        value_string("false", false)
    );
}

#[test]
fn iflonger_wrong_n_arguments() {
    assert_eq!(
        control::iflonger(vec![value_string("blah", false)]).err().unwrap(),
        Error::InvalidNativeFunctionArgs(String::from("iflonger"), 1)
    );
}

#[test]
fn longer() {
    assert_eq!(
        control::iflonger(vec![
            value_string("string", false),
            value_string("1", true),
            value_string("true", false),
            value_string("false", false)
        ])
        .unwrap(),
        value_string("true", false)
    );
}

#[test]
fn shorter() {
    assert_eq!(
        control::iflonger(vec![
            value_string("string", false),
            value_string("10", true),
            value_string("true", false),
            value_string("false", false)
        ])
        .unwrap(),
        value_string("false", false)
    );
}

#[test]
fn iflonger_equal() {
    assert_eq!(
        control::iflonger(vec![
            value_string("string", false),
            value_string("6", true),
            value_string("true", false),
            value_string("false", false)
        ])
        .unwrap(),
        value_string("false", false)
    );
}

#[test]
fn select_wrong_n_arguments() {
    assert_eq!(
        control::select(vec![value_string("blah", false)]).err().unwrap(),
        Error::InvalidNativeFunctionArgs(String::from("select"), 1)
    );
}

#[test]
fn out_of_bounds() {
    assert_eq!(
        control::select(vec![value_string("3", false), value_string("true", true)]).unwrap(),
        value_string("", false)
    );
}

#[test]
fn select_valid() {
    assert_eq!(
        control::select(vec![
            value_string("2", false),
            value_string("1", false),
            value_string("2", false),
            value_string("3", false),
            value_string("4", true)
        ])
        .unwrap(),
        value_string("2", false)
    );
}
