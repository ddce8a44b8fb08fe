use script_core::environment::Environment;
use script_core::error::RuntimeError;
use script_core::value::Value;

fn name(text: &str) -> String {
    text.to_owned()
}

#[test]
fn a_new_environment_declares_nothing() {
    let environment = Environment::new();
    assert_eq!(environment.get(&name("x")), Err(RuntimeError::UndefinedVariable(name("x"))));
    assert!(!environment.contains(&name("x")));
}

#[test]
fn set_inserts_and_overwrites() {
    let mut environment = Environment::new();
    environment.set(name("x"), Some(Value::Number(1)));
    environment.set(name("y"), Some(Value::String(name("text"))));
    environment.set(name("z"), None);
    assert_eq!(environment.get(&name("x")), Ok(Some(Value::Number(1))));
    assert_eq!(environment.get(&name("y")), Ok(Some(Value::String(name("text")))));
    assert_eq!(environment.get(&name("z")), Ok(None));
    environment.set(name("x"), Some(Value::Number(2)));
    environment.set(name("y"), None);
    environment.set(name("z"), Some(Value::Number(3)));
    assert_eq!(environment.get(&name("x")), Ok(Some(Value::Number(2))));
    assert_eq!(environment.get(&name("y")), Ok(None));
    assert_eq!(environment.get(&name("z")), Ok(Some(Value::Number(3))));
    assert!(environment.contains(&name("y")));
    assert_eq!(environment.get(&name("w")), Err(RuntimeError::UndefinedVariable(name("w"))));
}

#[test]
fn a_declared_name_without_a_value_is_not_undefined() {
    let mut environment = Environment::new();
    environment.set(name("x"), None);
    assert_eq!(environment.get(&name("x")), Ok(None));
    assert!(environment.contains(&name("x")));
    assert!(!environment.contains(&name("X")));
}

#[test]
fn a_copy_holds_what_its_source_holds_and_changes_alone() {
    let mut environment = Environment::new();
    environment.set(name("x"), Some(Value::Number(1)));
    let mut copy = environment.clone();
    copy.set(name("x"), Some(Value::Number(2)));
    copy.set(name("y"), None);
    assert_eq!(environment.get(&name("x")), Ok(Some(Value::Number(1))));
    assert!(!environment.contains(&name("y")));
    assert_eq!(copy.get(&name("x")), Ok(Some(Value::Number(2))));
    assert_eq!(copy.get(&name("y")), Ok(None));
}
