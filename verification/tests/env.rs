use loxrs::env::Env;

#[test]
fn test_basics() {
    let mut env: Env<String> = Env::default();
    assert!(env.get("foo").is_err());

    env.define("foo", "bar".to_owned());
    assert!(env.get("foo").is_ok());

    assert!(env.assign("baz", "bar".to_owned()).is_err());

    env.define("baz", "fff".to_owned());
    assert!(env.assign("baz", "bar".to_owned()).is_ok());
    assert!(env.get("baz").is_ok());
}

#[test]
fn stack_blowout() {
    let mut env: Env<String> = Env::default();
    for _i in 1..10_000_000 {
        env.open_scope();
    }
}

#[test]
fn test_scope_assignment() {
    let mut env: Env<String> = Env::default();
    env.define("foo", "bar".to_owned());
    assert!(env.get("foo").is_ok_and(|str| str == "bar"));

    env.open_scope();
    assert!(env.get("foo").is_ok());
    assert!(env.get("baz").is_err());
    env.define("baz", "bar".to_owned());
    assert!(env.get("baz").is_ok());

    assert!(env.assign("foo", "cow".to_owned()).is_ok());
    env.close_scope();
    assert!(env.get("foo").is_ok_and(|str| str == "cow"));

    env.close_scope();
    assert!(env.get("foo").is_err());
}

#[test]
fn scope_shadow() {
    let mut env: Env<String> = Env::default();
    env.define_global("foo", "bar".to_owned());

    env.open_scope();
    env.define("foo", "baz".to_owned());
    assert!(env.get("foo").is_ok_and(|str| str == "baz"));

    env.close_scope();
    assert!(env.get("foo").is_ok_and(|str| str == "bar"));
}

#[test]
fn closing_forgets_inner_bindings() {
    let mut env: Env<u32> = Env::new();
    env.open_scope();
    env.define("x", 1);
    assert_eq!(env.depth(), 2);
    env.close_scope();
    assert!(env.get("x").is_err());
    env.close_scope();
    env.close_scope();
    assert_eq!(env.depth(), 0);
    env.define("x", 1);
    assert!(env.get("x").is_err());
    assert!(env.assign("x", 1).is_err());
}

#[test]
fn assign_does_not_touch_globals() {
    let mut env: Env<u32> = Env::new();
    env.define_global("g", 1);
    assert!(env.assign("g", 2).is_err());
    assert_eq!(env.get("g").ok(), Some(1));
}
