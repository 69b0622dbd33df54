use titleformat_rs::environment::value_string;
use titleformat_rs::functions::num;
use titleformat_rs::types::Error;

#[test]
fn functions_test_int() {
    /* no digits */
    assert_eq!(0, num::to_int("c3po"));
    /* no floats */
    assert_eq!(4, num::to_int("4.8"));
    /* valid number */
    assert_eq!(-12, num::to_int("-12"));
    /* no whitespace between '-' and number */
    assert_eq!(0, num::to_int("- 12"));
    /* leading whitespace is ignored */
    assert_eq!(4, num::to_int(" 4.8"));
}

#[test]
fn mod_test_int() {
    assert_eq!(0, num::to_int("c3po"));
    assert_eq!(4, num::to_int("4.8"));
    assert_eq!(-12, num::to_int("-12"));
    assert_eq!(0, num::to_int("- 12"));
    assert_eq!(4, num::to_int(" 4.8"));
}

#[test]
fn functions_test_add() {
    assert_eq!(
        String::from("4"),
        num::add(vec![String::from("2"), String::from("2")]).ok().unwrap()
    );
    assert_eq!(
        String::from("6"),
        num::add(vec![String::from("2"), String::from("2"), String::from("2")])
            .ok()
            .unwrap()
    );
}

#[test]
fn functions_test_sub() {
    assert_eq!(
        String::from("0"),
        num::sub(vec![String::from("2"), String::from("2")]).ok().unwrap()
    );
    assert_eq!(
        String::from("4"),
        num::sub(vec![String::from("8"), String::from("2"), String::from("2")])
            .ok()
            .unwrap()
    );
}

#[test]
fn functions_test_div() {
    assert_eq!(
        String::from("16"),
        num::div(vec![String::from("32"), String::from("2")]).ok().unwrap()
    );
    assert_eq!(
        String::from("8"),
        num::div(vec![String::from("32"), String::from("2"), String::from("2")])
            .ok()
            .unwrap()
    );
}

#[test]
fn functions_test_mul() {
    assert_eq!(
        String::from("9"),
        num::mul(vec![String::from("3"), String::from("3")]).ok().unwrap()
    );
    assert_eq!(
        String::from("27"),
        num::mul(vec![String::from("3"), String::from("3"), String::from("3")])
            .ok()
            .unwrap()
    );
}

#[test]
fn functions_test_max() {
    assert_eq!(
        String::from("2"),
        num::max(vec![String::from("1"), String::from("2")]).ok().unwrap()
    );
    assert_eq!(
        String::from("2"),
        num::max(vec![String::from("-1"), String::from("2"), String::from("-4")])
            .ok()
            .unwrap()
    );
}

#[test]
fn functions_test_min() {
    assert_eq!(
        String::from("1"),
        num::min(vec![String::from("1"), String::from("2")]).ok().unwrap()
    );
    assert_eq!(
        String::from("-4"),
        num::min(vec![String::from("-1"), String::from("2"), String::from("-4")])
            .ok()
            .unwrap()
    );
}

#[test]
fn add_wrong_n_arguments() {
    assert_eq!(
        num::add(vec![String::from("a")]).err().unwrap(),
        Error::InvalidNativeFunctionArgs(String::from("add"), 1)
    );
}

#[test]
fn add_test_add() {
    assert_eq!(
        String::from("4"),
        num::add(vec![String::from("2"), String::from("2")]).ok().unwrap()
    );
    assert_eq!(
        String::from("6"),
        num::add(vec![String::from("2"), String::from("2"), String::from("2")])
            .ok()
            .unwrap()
    );
}

#[test]
fn sub_wrong_n_arguments() {
    assert_eq!(
        num::sub(vec![String::from("a")]).err().unwrap(),
        Error::InvalidNativeFunctionArgs(String::from("sub"), 1)
    );
}

#[test]
fn sub_test_sub() {
    assert_eq!(
        String::from("0"),
        num::sub(vec![String::from("2"), String::from("2")]).ok().unwrap()
    );
    assert_eq!(
        String::from("4"),
        num::sub(vec![String::from("8"), String::from("2"), String::from("2")])
            .ok()
            .unwrap()
    );
}

#[test]
fn mul_wrong_n_arguments() {
    assert_eq!(
        num::mul(vec![String::from("a")]).err().unwrap(),
        Error::InvalidNativeFunctionArgs(String::from("mul"), 1)
    );
}

#[test]
fn mul_test_mul() {
    assert_eq!(
        String::from("9"),
        num::mul(vec![String::from("3"), String::from("3")]).ok().unwrap()
    );
    assert_eq!(
        String::from("27"),
        num::mul(vec![String::from("3"), String::from("3"), String::from("3")])
            .ok()
            .unwrap()
    );
}

#[test]
fn div_wrong_n_arguments() {
    assert_eq!(
        num::div(vec![String::from("a")]).err().unwrap(),
        Error::InvalidNativeFunctionArgs(String::from("div"), 1)
    );
}

#[test]
fn div_test_div() {
    assert_eq!(
        String::from("16"),
        num::div(vec![String::from("32"), String::from("2")]).ok().unwrap()
    );
    assert_eq!(
        String::from("8"),
        num::div(vec![String::from("32"), String::from("2"), String::from("2")])
            .ok()
            .unwrap()
    );
}

#[test]
fn max_wrong_n_arguments() {
    assert_eq!(
        num::max(vec![String::from("a")]).err().unwrap(),
        Error::InvalidNativeFunctionArgs(String::from("max"), 1)
    );
}

#[test]
fn max_test_max() {
    assert_eq!(
        String::from("2"),
        num::max(vec![String::from("1"), String::from("2")]).ok().unwrap()
    );
    assert_eq!(
        String::from("2"),
        num::max(vec![String::from("-1"), String::from("2"), String::from("-4")])
            .ok()
            .unwrap()
    );
}

#[test]
fn min_wrong_n_arguments() {
    assert_eq!(
        num::min(vec![String::from("a")]).err().unwrap(),
        Error::InvalidNativeFunctionArgs(String::from("min"), 1)
    );
}

#[test]
fn min_test_min() {
    assert_eq!(
        String::from("1"),
        num::min(vec![String::from("1"), String::from("2")]).ok().unwrap()
    );
    assert_eq!(
        String::from("-4"),
        num::min(vec![String::from("-1"), String::from("2"), String::from("-4")])
            .ok()
            .unwrap()
    );
}

#[test]
fn control_wrong_n_arguments() {
    assert_eq!(
        num::eq(vec![]).err().unwrap(),
        Error::InvalidNativeFunctionArgs(String::from("eq"), 0)
    );
    assert_eq!(
        num::ne(vec![]).err().unwrap(),
        Error::InvalidNativeFunctionArgs(String::from("ne"), 0)
    );
    assert_eq!(
        num::gt(vec![]).err().unwrap(),
        Error::InvalidNativeFunctionArgs(String::from("gt"), 0)
    );
    assert_eq!(
        num::gte(vec![]).err().unwrap(),
        Error::InvalidNativeFunctionArgs(String::from("gte"), 0)
    );
    assert_eq!(
        num::lt(vec![]).err().unwrap(),
        Error::InvalidNativeFunctionArgs(String::from("lt"), 0)
    );
    assert_eq!(
        num::lte(vec![]).err().unwrap(),
        Error::InvalidNativeFunctionArgs(String::from("lte"), 0)
    );
}

#[test]
fn test_eq() {
    assert_eq!(
        value_string("", false),
        num::eq(vec![value_string("1", true), value_string("2", true)]).ok().unwrap()
    );
    assert_eq!(
        value_string("", true),
        num::eq(vec![value_string("1", true), value_string("1", true)]).ok().unwrap()
    );
}

#[test]
fn test_ne() {
    assert_eq!(
        value_string("", true),
        num::ne(vec![value_string("1", true), value_string("2", true)]).ok().unwrap()
    );
    assert_eq!(
        value_string("", false),
        num::ne(vec![value_string("1", true), value_string("1", true)]).ok().unwrap()
    );
}

#[test]
fn test_gt() {
    assert_eq!(
        value_string("", false),
        num::gt(vec![value_string("1", true), value_string("2", true)]).ok().unwrap()
    );
    assert_eq!(
        value_string("", false),
        num::gt(vec![value_string("1", true), value_string("1", true)]).ok().unwrap()
    );
    assert_eq!(
        value_string("", true),
        num::gt(vec![value_string("2", true), value_string("1", true)]).ok().unwrap()
    );
}

#[test]
fn test_gte() {
    assert_eq!(
        value_string("", false),
        num::gte(vec![value_string("1", true), value_string("2", true)]).ok().unwrap()
    );
    assert_eq!(
        value_string("", true),
        num::gte(vec![value_string("1", true), value_string("1", true)]).ok().unwrap()
    );
    assert_eq!(
        value_string("", true),
        num::gte(vec![value_string("2", true), value_string("1", true)]).ok().unwrap()
    );
}

#[test]
fn test_lt() {
    assert_eq!(
        value_string("", true),
        num::lt(vec![value_string("1", true), value_string("2", true)]).ok().unwrap()
    );
    assert_eq!(
        value_string("", false),
        num::lt(vec![value_string("1", true), value_string("1", true)]).ok().unwrap()
    );
    assert_eq!(
        value_string("", false),
        num::lt(vec![value_string("2", true), value_string("1", true)]).ok().unwrap()
    );
}

#[test]
fn test_lte() {
    assert_eq!(
        value_string("", true),
        num::lte(vec![value_string("1", true), value_string("2", true)]).ok().unwrap()
    );
    assert_eq!(
        value_string("", true),
        num::lte(vec![value_string("1", true), value_string("1", true)]).ok().unwrap()
    );
    assert_eq!(
        value_string("", false),
        num::lte(vec![value_string("2", true), value_string("1", true)]).ok().unwrap()
    );
}
