use loxrs::scope::Scope;

#[test]
fn basics() {
    let mut scope: Scope<String> = Scope::default();
    let root = scope.root();

    assert!(scope.get(root, "foo").is_err());

    scope.define(root, "foo", "bar".to_owned());
    assert!(scope.get(root, "foo").is_ok());

    assert!(scope.assign(root, "baz", "bar".to_owned()).is_err());

    scope.define(root, "baz", "fff".to_owned());
    assert!(scope.assign(root, "baz", "bar".to_owned()).is_ok());
    assert!(scope.get(root, "baz").is_ok());
}

#[test]
fn scope_assignment() {
    let mut scope: Scope<String> = Scope::default();
    let root = scope.root();

    assert!(scope.get(root, "foo").is_err());
    scope.define(root, "foo", "bar".to_owned());
    assert!(scope.get(root, "foo").is_ok_and(|str| str == "bar"));
}

#[test]
fn ancestry() {
    let mut scopes: Scope<bool> = Scope::default();
    let grandparent = scopes.root();
    scopes.define(grandparent, "grandy", true);

    let parent = scopes.from_parent(grandparent);

    scopes.define(parent, "parent", true);
    let child = scopes.from_parent(parent);

    scopes.define(child, "child", true);

    assert!(scopes.get_at(child, 0, "child").is_ok_and(|el| el));
    assert!(scopes.get_at(child, 1, "parent").is_ok_and(|el| el));
    assert!(scopes.get_at(child, 2, "grandy").is_ok_and(|el| el));

    assert!(scopes.assign_at(grandparent, 33, "foo", true).is_err());
    assert!(scopes.assign_at(grandparent, 1, "bar", true).is_err());
    assert!(scopes.assign_at(grandparent, 0, "works", true).is_ok());

    assert!(scopes.get_at(child, 2, "works").is_ok_and(|el| el));
}

#[test]
fn get_walks_up_and_get_at_does_not() {
    let mut scopes: Scope<u32> = Scope::new();
    let root = scopes.root();
    scopes.define(root, "x", 1);
    let inner = scopes.from_parent(root);
    assert_eq!(scopes.get(inner, "x").ok(), Some(1));
    assert!(scopes.get_at(inner, 0, "x").is_err());
    assert_eq!(scopes.get_at(inner, 1, "x").ok(), Some(1));
    scopes.define(inner, "x", 2);
    assert_eq!(scopes.get(inner, "x").ok(), Some(2));
    assert_eq!(scopes.get(root, "x").ok(), Some(1));
}

#[test]
fn assign_reaches_the_defining_frame() {
    let mut scopes: Scope<u32> = Scope::new();
    let root = scopes.root();
    scopes.define(root, "x", 1);
    let inner = scopes.from_parent(root);
    assert!(scopes.assign(inner, "x", 7).is_ok());
    assert_eq!(scopes.get(root, "x").ok(), Some(7));
    assert!(scopes.get_at(inner, 0, "x").is_err());
    assert!(scopes.assign(inner, "y", 7).is_err());
    assert_eq!(scopes.len(), 2);
}

#[test]
fn define_overwrites() {
    let mut scopes: Scope<u32> = Scope::new();
    let root = scopes.root();
    scopes.define(root, "x", 1);
    scopes.define(root, "x", 2);
    assert_eq!(scopes.get(root, "x").ok(), Some(2));
}
