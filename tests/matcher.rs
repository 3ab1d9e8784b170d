use match_desugar::language::constructors::{
    literal, literal_scrutinee, struct_, struct_field, struct_scrutinee, struct_scrutinee_field,
    tuple, tuple_scrutinee, u32_, variable, variable_scrutinee,
};
use match_desugar::language::{Expression, Literal};
use match_desugar::matcher::matcher;
use match_desugar::namespace::Namespace;

fn point_namespace() -> Namespace {
    let mut namespace = Namespace::new();
    namespace.insert(
        "foo".to_string(),
        struct_(
            "Point",
            vec![
                struct_field("x", literal(u32_(5))),
                struct_field("y", literal(u32_(7))),
            ],
        ),
    );
    namespace
}

#[test]
fn match_u32() {
    let namespace = Namespace::new();
    let exp = literal(u32_(4));
    let scrutinee = literal_scrutinee(u32_(4));
    let matches = matcher(&exp, &scrutinee, &namespace);
    let (match_req_map, match_impl_map) = matches.unwrap();
    assert!(match_impl_map.is_empty());
    assert_eq!(match_req_map.len(), 1);
}

#[test]
fn match_variable() {
    let mut namespace = Namespace::new();
    namespace.insert("x".to_string(), literal(u32_(4)));
    let exp = variable("x");
    let scrutinee = literal_scrutinee(u32_(4));
    let matches = matcher(&exp, &scrutinee, &namespace);
    let (match_req_map, match_impl_map) = matches.unwrap();
    assert!(match_impl_map.is_empty());
    assert_eq!(match_req_map.len(), 1);
}

#[test]
fn u32_to_variable() {
    let namespace = Namespace::new();
    let exp = literal(u32_(4));
    let scrutinee = variable_scrutinee("x");
    let matches = matcher(&exp, &scrutinee, &namespace);
    let (match_req_map, match_impl_map) = matches.unwrap();
    assert_eq!(match_impl_map.len(), 1);
    assert_eq!(match_req_map.len(), 0);
}

#[test]
fn variable_to_variable() {
    let mut namespace = Namespace::new();
    namespace.insert("x".to_string(), literal(u32_(4)));
    let exp = variable("x");
    let scrutinee = variable_scrutinee("y");
    let matches = matcher(&exp, &scrutinee, &namespace);
    let (match_req_map, match_impl_map) = matches.unwrap();
    assert_eq!(match_impl_map.len(), 1);
    assert_eq!(match_req_map.len(), 0);
}

#[test]
fn tuple_to_variable() {
    let namespace = Namespace::new();
    let exp = tuple(vec![literal(u32_(2)), literal(u32_(4))]);
    let scrutinee = variable_scrutinee("x");
    let matches = matcher(&exp, &scrutinee, &namespace);
    let (match_req_map, match_impl_map) = matches.unwrap();
    assert_eq!(match_impl_map.len(), 1);
    assert_eq!(match_req_map.len(), 0);
}

#[test]
fn tuple_to_tuple() {
    let namespace = Namespace::new();
    let exp = tuple(vec![literal(u32_(2)), literal(u32_(4))]);
    let scrutinee = tuple_scrutinee(vec![literal_scrutinee(u32_(2)), literal_scrutinee(u32_(4))]);
    let matches = matcher(&exp, &scrutinee, &namespace);
    let (match_req_map, match_impl_map) = matches.unwrap();
    assert_eq!(match_impl_map.len(), 0);
    assert_eq!(match_req_map.len(), 2);
}

#[test]
fn tuple_to_tuple_variable() {
    let namespace = Namespace::new();
    let exp = tuple(vec![literal(u32_(2)), literal(u32_(4))]);
    let scrutinee = tuple_scrutinee(vec![variable_scrutinee("x"), variable_scrutinee("y")]);
    let matches = matcher(&exp, &scrutinee, &namespace);
    let (match_req_map, match_impl_map) = matches.unwrap();
    assert_eq!(match_impl_map.len(), 2);
    assert_eq!(match_req_map.len(), 0);
}

#[test]
fn tuple_to_tuple_variable_u32() {
    let namespace = Namespace::new();
    let exp = tuple(vec![literal(u32_(2)), literal(u32_(4))]);
    let scrutinee = tuple_scrutinee(vec![variable_scrutinee("x"), literal_scrutinee(u32_(4))]);
    let matches = matcher(&exp, &scrutinee, &namespace);
    let (match_req_map, match_impl_map) = matches.unwrap();
    assert_eq!(match_impl_map.len(), 1);
    assert_eq!(match_req_map.len(), 1);
}

#[test]
fn tuple_none() {
    let namespace = Namespace::new();
    let exp = tuple(vec![literal(u32_(2))]);
    let scrutinee = tuple_scrutinee(vec![variable_scrutinee("x"), literal_scrutinee(u32_(4))]);
    let matches = matcher(&exp, &scrutinee, &namespace);
    assert_eq!(matches, None);
}

#[test]
fn struct_to_variable() {
    let namespace = point_namespace();
    let exp = variable("foo");
    let scrutinee = variable_scrutinee("bar");
    let matches = matcher(&exp, &scrutinee, &namespace);
    let (match_req_map, match_impl_map) = matches.unwrap();
    assert_eq!(match_impl_map.len(), 1);
    assert_eq!(match_req_map.len(), 0);
}

#[test]
fn struct_to_struct() {
    let namespace = point_namespace();
    let exp = variable("foo");
    let scrutinee = struct_scrutinee(
        "Point",
        vec![
            struct_scrutinee_field(variable_scrutinee("x")),
            struct_scrutinee_field(variable_scrutinee("y")),
        ],
    );
    let matches = matcher(&exp, &scrutinee, &namespace);
    let (match_req_map, match_impl_map) = matches.unwrap();
    assert_eq!(match_impl_map.len(), 2);
    assert_eq!(match_req_map.len(), 0);
}

#[test]
fn struct_to_struct_variable() {
    let namespace = point_namespace();
    let exp = variable("foo");
    let scrutinee = struct_scrutinee(
        "Point",
        vec![
            struct_scrutinee_field(variable_scrutinee("x")),
            struct_scrutinee_field(literal_scrutinee(u32_(7))),
        ],
    );
    let matches = matcher(&exp, &scrutinee, &namespace);
    let (match_req_map, match_impl_map) = matches.unwrap();
    assert_eq!(match_impl_map.len(), 1);
    assert_eq!(match_req_map.len(), 1);
}

#[test]
fn struct_none() {
    let namespace = point_namespace();
    let exp = variable("foo");
    let scrutinee = struct_scrutinee(
        "Point",
        vec![
            struct_scrutinee_field(variable_scrutinee("x")),
            struct_scrutinee_field(literal_scrutinee(u32_(8))),
        ],
    );
    let matches = matcher(&exp, &scrutinee, &namespace);
    assert_eq!(matches, None);
}

#[test]
fn literal_match_gives_pattern_then_expression() {
    let namespace = Namespace::new();
    let matches = matcher(&literal(u32_(9)), &literal_scrutinee(u32_(9)), &namespace);
    assert_eq!(
        matches,
        Some((vec![(literal(u32_(9)), literal(u32_(9)))], vec![]))
    );
}

#[test]
fn unequal_literals_do_not_match() {
    let namespace = Namespace::new();
    let matches = matcher(&literal(u32_(4)), &literal_scrutinee(u32_(5)), &namespace);
    assert_eq!(matches, None);
}

#[test]
fn literal_kinds_are_not_coerced() {
    let namespace = Namespace::new();
    let exp = literal(Literal::U64(4));
    let matches = matcher(&exp, &literal_scrutinee(u32_(4)), &namespace);
    assert_eq!(matches, None);
}

#[test]
fn string_literals_match_by_text() {
    let namespace = Namespace::new();
    let exp = literal(Literal::String("abc".to_string()));
    let same = literal_scrutinee(Literal::String("abc".to_string()));
    let other = literal_scrutinee(Literal::String("abd".to_string()));
    assert!(matcher(&exp, &same, &namespace).is_some());
    assert_eq!(matcher(&exp, &other, &namespace), None);
}

#[test]
fn variable_binds_looked_up_value() {
    let mut namespace = Namespace::new();
    namespace.insert("x".to_string(), literal(u32_(4)));
    let matches = matcher(&variable("x"), &variable_scrutinee("y"), &namespace);
    assert_eq!(matches, Some((vec![], vec![("y".to_string(), literal(u32_(4)))])));
}

#[test]
fn longer_tuple_does_not_match_shorter_pattern() {
    let namespace = Namespace::new();
    let exp = tuple(vec![literal(u32_(1)), literal(u32_(2)), literal(u32_(3))]);
    let scrutinee = tuple_scrutinee(vec![variable_scrutinee("a"), variable_scrutinee("b")]);
    assert_eq!(matcher(&exp, &scrutinee, &namespace), None);
}

#[test]
fn empty_tuple_matches_empty_pattern() {
    let namespace = Namespace::new();
    let matches = matcher(&tuple(vec![]), &tuple_scrutinee(vec![]), &namespace);
    assert_eq!(matches, Some((vec![], vec![])));
}

#[test]
fn tuple_elements_are_looked_up_in_order() {
    let mut namespace = Namespace::new();
    namespace.insert("a".to_string(), literal(u32_(1)));
    let exp = tuple(vec![variable("a"), literal(u32_(2))]);
    let scrutinee = tuple_scrutinee(vec![literal_scrutinee(u32_(1)), variable_scrutinee("b")]);
    let matches = matcher(&exp, &scrutinee, &namespace);
    assert_eq!(
        matches,
        Some((
            vec![(literal(u32_(1)), literal(u32_(1)))],
            vec![("b".to_string(), literal(u32_(2)))]
        ))
    );
}

#[test]
fn record_pattern_with_other_tag_fails() {
    let namespace = point_namespace();
    let scrutinee = struct_scrutinee(
        "Size",
        vec![
            struct_scrutinee_field(variable_scrutinee("x")),
            struct_scrutinee_field(variable_scrutinee("y")),
        ],
    );
    assert_eq!(matcher(&variable("foo"), &scrutinee, &namespace), None);
}

#[test]
fn record_field_name_must_match_bare_name() {
    let namespace = point_namespace();
    let scrutinee = struct_scrutinee(
        "Point",
        vec![
            struct_scrutinee_field(variable_scrutinee("x")),
            struct_scrutinee_field(variable_scrutinee("z")),
        ],
    );
    assert_eq!(matcher(&variable("foo"), &scrutinee, &namespace), None);
}

#[test]
fn record_fields_beyond_the_pattern_are_ignored() {
    let namespace = point_namespace();
    let scrutinee =
        struct_scrutinee("Point", vec![struct_scrutinee_field(variable_scrutinee("x"))]);
    let matches = matcher(&variable("foo"), &scrutinee, &namespace);
    assert_eq!(matches, Some((vec![], vec![("x".to_string(), literal(u32_(5)))])));
}

#[test]
fn tuple_pattern_against_record_fails() {
    let namespace = point_namespace();
    let scrutinee = tuple_scrutinee(vec![variable_scrutinee("a"), variable_scrutinee("b")]);
    assert_eq!(matcher(&variable("foo"), &scrutinee, &namespace), None);
}

#[test]
fn clone_keeps_expression() {
    let e: Expression = struct_("Point", vec![struct_field("x", tuple(vec![literal(u32_(1))]))]);
    assert_eq!(e.clone(), e);
}
