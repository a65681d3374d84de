use sol::scope::{Scope, ScopeType};

#[test]
fn scope_binds_and_shadows() {
    let mut scope = Scope::new(ScopeType::Local);
    assert!(!scope.is_global());
    assert_eq!(scope.contains("x"), None);
    scope.define_immutable("x", 3);
    assert_eq!(scope.contains("x"), Some(3));
    assert_eq!(scope.is_mutable("x"), Some(false));
    scope.define_mutable("x", 4);
    assert_eq!(scope.contains("x"), Some(4));
    assert_eq!(scope.is_mutable("x"), Some(true));
    assert!(!scope.contains_function("f"));
    scope.define_function("f");
    assert!(scope.contains_function("f"));
    assert!(!scope.announces_function("f"));
    scope.announce_function("g");
    assert!(scope.announces_function("g"));
    assert!(!scope.contains_function("g"));
    assert!(!scope.announces_function("h"));
}
