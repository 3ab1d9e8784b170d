use match_desugar::language::constructors::{literal, u32_};
use match_desugar::namespace::Namespace;

#[test]
fn later_binding_hides_earlier() {
    let mut namespace = Namespace::new();
    namespace.insert("x".to_string(), literal(u32_(1)));
    namespace.insert("y".to_string(), literal(u32_(2)));
    namespace.insert("x".to_string(), literal(u32_(3)));
    assert_eq!(namespace.get(&"x".to_string()), Some(&literal(u32_(3))));
    assert_eq!(namespace.get(&"y".to_string()), Some(&literal(u32_(2))));
    assert_eq!(namespace.get(&"z".to_string()), None);
}

#[test]
fn new_namespace_is_empty() {
    let namespace = Namespace::new();
    assert_eq!(namespace.get(&"x".to_string()), None);
}
