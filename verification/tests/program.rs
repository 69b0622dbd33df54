use titleformat_rs::program::Program;

#[test]
fn test_parse() {
    let mut prog = Program::new();
    prog.parse("%a%").unwrap();
}

#[test]
fn test_multi_parse() {
    let mut prog = Program::new();
    prog.parse("%a%").unwrap();
    prog.parse("%b%").unwrap();
}

#[test]
fn test_run_empty() {
    let mut prog = Program::new();
    prog.parse("").unwrap();
    assert_eq!(prog.run().unwrap(), String::from(""));
}

#[test]
fn test_run() {
    let mut prog = Program::new();
    prog.parse("%a%").unwrap();
    let m = vec![(String::from("a"), vec![String::from("val")])];
    assert_eq!(prog.run_with_meta(m).unwrap(), String::from("val"));
}

#[test]
fn test_run_unknown_variable() {
    let mut prog = Program::new();
    prog.parse("%unknown%").unwrap();
    assert_eq!(prog.run().unwrap(), String::from("?"));
}

#[test]
fn test_run_func() {
    let mut prog = Program::new();
    prog.parse("$add(2,2)").unwrap();
    assert_eq!(prog.run().unwrap(), String::from("4"));
}

#[test]
fn test_run_func_variable() {
    let mut prog = Program::new();
    prog.parse("$add(%a%,2)").unwrap();
    let m = vec![(String::from("a"), vec![String::from("2")])];
    assert_eq!(prog.run_with_meta(m).unwrap(), String::from("4"));
}

#[test]
fn test_run_func_func() {
    let mut prog = Program::new();
    prog.parse("$add($add(1,1),2)").unwrap();
    assert_eq!(prog.run().unwrap(), String::from("4"));
}

#[test]
fn test_multi_run() {
    let mut prog = Program::new();
    prog.parse("$add(%a%,2)").unwrap();
    let m = vec![(String::from("a"), vec![String::from("2")])];
    assert_eq!(prog.run_with_meta(m.clone()).unwrap(), String::from("4"));
    assert_eq!(prog.run_with_meta(m).unwrap(), String::from("4"));
}

#[test]
fn test_run_conditional_variable_exists() {
    let mut prog = Program::new();
    prog.parse("[%a%]").unwrap();
    let m = vec![(String::from("a"), vec![String::from("val")])];
    assert_eq!(prog.run_with_meta(m).unwrap(), String::from("val"));
}

#[test]
fn test_run_conditional_variable_nonexistent() {
    let mut prog = Program::new();
    prog.parse("[%a%]").unwrap();
    assert_eq!(prog.run().unwrap(), String::from(""));
}

#[test]
fn test_run_conditional_function_variable_exists() {
    let mut prog = Program::new();
    prog.parse("[$add(%a%,2)]").unwrap();
    let m = vec![(String::from("a"), vec![String::from("2")])];
    assert_eq!(prog.run_with_meta(m).unwrap(), String::from("4"));
}

#[test]
fn test_run_conditional_function_variable_nonexistent() {
    let mut prog = Program::new();
    prog.parse("[$add(%a%,2)]").unwrap();
    assert_eq!(prog.run().unwrap(), String::from(""));
}
