use titleformat_rs::environment::{Environment, value_string};
use titleformat_rs::types::Error;

fn meta_abcd() -> Vec<(String, Vec<String>)> {
    vec![
        (
            String::from("a"),
            vec![
                String::from("0"),
                String::from("1"),
                String::from("2"),
                String::from("3"),
            ],
        ),
    ]
}

#[test]
fn test_put_get() {
    let mut env = Environment::new(Vec::new());
    assert_eq!(env.put("a", "val"), String::from("val"));
    assert_eq!(env.get("a"), value_string("val", true));
}

#[test]
fn test_put_get_value() {
    let mut env = Environment::new(Vec::new());

    assert_eq!(
        env.put_value(vec![value_string("a", true), value_string("val", true)])
            .unwrap(),
        value_string("val", true)
    );
    assert_eq!(
        env.get_value(vec![value_string("a", true)]).unwrap(),
        value_string("val", true)
    );

    assert_eq!(
        env.puts_value(vec![value_string("b", true), value_string("bar", true)])
            .unwrap(),
        value_string("", true)
    );
    assert_eq!(
        env.get_value(vec![value_string("b", true)]).unwrap(),
        value_string("bar", true)
    );
}

#[test]
fn test_puts_get() {
    let mut env = Environment::new(Vec::new());
    env.puts("a", "val");
    assert_eq!(env.get("a"), value_string("val", true));
}

#[test]
fn test_get_unknown() {
    let env = Environment::new(Vec::new());
    assert_eq!(env.get("invalid"), value_string("?", false));
}

#[test]
fn test_call() {
    let mut env = Environment::new(Vec::new());
    assert_eq!(
        env.call("add", vec![value_string("2", true), value_string("2", true)])
            .unwrap(),
        value_string("4", true)
    );
}

#[test]
fn test_call_unknown() {
    let mut env = Environment::new(Vec::new());
    assert_eq!(
        env.call("unknown", vec![]).err().unwrap(),
        Error::UndefinedFunction(String::from("unknown"))
    );
}

#[test]
fn environment_wrong_n_arguments() {
    let mut env = Environment::new(Vec::new());
    assert_eq!(
        env.meta_value(vec![]).err().unwrap(),
        Error::InvalidNativeFunctionArgs(String::from("meta"), 0)
    );
    assert_eq!(
        env.meta_sep_value(vec![]).err().unwrap(),
        Error::InvalidNativeFunctionArgs(String::from("meta_sep"), 0)
    );
    assert_eq!(
        env.meta_num_value(vec![]).err().unwrap(),
        Error::InvalidNativeFunctionArgs(String::from("meta_num"), 0)
    );
    assert_eq!(
        env.put_value(vec![]).err().unwrap(),
        Error::InvalidNativeFunctionArgs(String::from("put"), 0)
    );
    assert_eq!(
        env.puts_value(vec![]).err().unwrap(),
        Error::InvalidNativeFunctionArgs(String::from("puts"), 0)
    );
    assert_eq!(
        env.get_value(vec![]).err().unwrap(),
        Error::InvalidNativeFunctionArgs(String::from("get"), 0)
    );
}

#[test]
fn environment_test_meta() {
    let env = Environment::new(meta_abcd());
    assert_eq!(
        env.meta_value(vec![value_string("a", true)]).unwrap(),
        value_string("0, 1, 2, 3", true)
    );
    assert_eq!(
        env.meta_value(vec![value_string("a", true), value_string("1", true)])
            .unwrap(),
        value_string("1", true)
    );
    assert_eq!(
        env.meta_value(vec![value_string("a", true), value_string("1000", true)])
            .unwrap(),
        value_string("?", false)
    );
}

#[test]
fn environment_test_meta_sep() {
    let env = Environment::new(meta_abcd());
    assert_eq!(
        env.meta_sep_value(vec![value_string("a", true), value_string("|", true)])
            .unwrap(),
        value_string("0|1|2|3", true)
    );
    assert_eq!(
        env.meta_sep_value(vec![
            value_string("a", true),
            value_string("|", true),
            value_string("^", true)
        ])
        .unwrap(),
        value_string("0|1|2^3", true)
    );
}

#[test]
fn environment_test_meta_num() {
    let env = Environment::new(meta_abcd());
    assert_eq!(
        env.meta_num_value(vec![value_string("a", true)]).unwrap(),
        value_string("4", true)
    );
    assert_eq!(
        env.meta_num_value(vec![value_string("unknown", true)]).unwrap(),
        value_string("0", true)
    );
}

#[test]
fn environment_test_meta_test() {
    let mut m = meta_abcd();
    m.push((String::from("b"), vec![String::from("4")]));
    let env = Environment::new(m);
    assert_eq!(
        env.meta_test_value(vec![value_string("a", true), value_string("b", true)])
            .unwrap(),
        value_string("", true)
    );
    assert_eq!(
        env.meta_test_value(vec![value_string("unknown", true)]).unwrap(),
        value_string("", false)
    );
}
