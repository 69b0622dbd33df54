use titleformat_rs::environment::{Environment, value_string};
use titleformat_rs::functions::meta;
use titleformat_rs::types::Error;

fn meta_abcd() -> Vec<(String, Vec<String>)> {
    vec![
        (
            String::from("a"),
            vec![
                String::from("0"),
                String::from("1"),
                String::from("2"),
                String::from("3"),
            ],
        ),
    ]
}

#[test]
fn meta_wrong_n_arguments() {
    assert_eq!(
        meta::meta(&Environment::new(Vec::new()), vec![]).err().unwrap(),
        Error::InvalidNativeFunctionArgs(String::from("meta"), 0)
    );
    assert_eq!(
        meta::meta_sep(&Environment::new(Vec::new()), vec![]).err().unwrap(),
        Error::InvalidNativeFunctionArgs(String::from("meta_sep"), 0)
    );
    assert_eq!(
        meta::meta_num(&Environment::new(Vec::new()), vec![]).err().unwrap(),
        Error::InvalidNativeFunctionArgs(String::from("meta_num"), 0)
    );
}

#[test]
fn meta_test_meta() {
    let env = Environment::new(meta_abcd());
    assert_eq!(
        meta::meta(&env.clone(), vec![value_string("a", true)]).unwrap(),
        value_string("0, 1, 2, 3", true)
    );
    assert_eq!(
        meta::meta(
            &env.clone(),
            vec![value_string("a", true), value_string("1", true)]
        )
        .unwrap(),
        value_string("1", true)
    );
}

#[test]
fn meta_test_meta_sep() {
    let env = Environment::new(meta_abcd());
    assert_eq!(
        meta::meta_sep(
            &env.clone(),
            vec![value_string("a", true), value_string("|", true)]
        )
        .unwrap(),
        value_string("0|1|2|3", true)
    );
    assert_eq!(
        meta::meta_sep(
            &env.clone(),
            vec![
                value_string("a", true),
                value_string("|", true),
                value_string("^", true)
            ]
        )
        .unwrap(),
        value_string("0|1|2^3", true)
    );
}

#[test]
fn meta_test_meta_num() {
    let env = Environment::new(meta_abcd());
    assert_eq!(
        meta::meta_num(&env.clone(), vec![value_string("a", true)]).unwrap(),
        value_string("4", true)
    );
}

#[test]
fn meta_test_meta_test() {
    let mut m = meta_abcd();
    m.push((String::from("b"), vec![String::from("4")]));
    let env = Environment::new(m);
    assert_eq!(
        meta::meta_test(
            &env.clone(),
            vec![value_string("a", true), value_string("b", true)]
        )
        .unwrap(),
        value_string("", true)
    );
}
