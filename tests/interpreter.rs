use match_desugar::desugar::desugar;
use match_desugar::interpreter::{evaluate, evaluate_node};
use match_desugar::language::constructors::{
    binop_and, binop_eq, block, boolean, expression, if_expression, literal, literal_scrutinee,
    match_, match_branch, match_scrutinee, match_scrutinee_catchall, struct_, struct_field,
    struct_scrutinee, struct_scrutinee_field, tuple, u32_, variable, variable_declaraction,
    variable_scrutinee,
};
use match_desugar::language::{Expression, Node};
use match_desugar::namespace::Namespace;

fn point_namespace() -> Namespace {
    let mut namespace = Namespace::new();
    namespace.insert(
        "foo".to_string(),
        struct_(
            "Point",
            vec![
                struct_field("x", literal(u32_(5))),
                struct_field("y", literal(u32_(7))),
            ],
        ),
    );
    namespace
}

fn as_expression(node: Node) -> Expression {
    block(vec![node])
}

#[test]
fn desugared_literal_match_evaluates_to_first_branch() {
    let namespace = Namespace::new();
    let node = match_(
        literal(u32_(5)),
        vec![
            match_branch(match_scrutinee(literal_scrutinee(u32_(5))), literal(u32_(42))),
            match_branch(match_scrutinee(variable_scrutinee("foo")), variable("foo")),
        ],
    );
    let desugared = desugar(node, &namespace).unwrap();
    assert_eq!(evaluate_node(&desugared, &namespace), Some(literal(u32_(42))));
}

#[test]
fn desugared_record_match_evaluates_with_bindings() {
    let namespace = point_namespace();
    let node = match_(
        variable("foo"),
        vec![
            match_branch(
                match_scrutinee(struct_scrutinee(
                    "Point",
                    vec![
                        struct_scrutinee_field(variable_scrutinee("x")),
                        struct_scrutinee_field(literal_scrutinee(u32_(7))),
                    ],
                )),
                variable("x"),
            ),
            match_branch(
                match_scrutinee(struct_scrutinee(
                    "Point",
                    vec![
                        struct_scrutinee_field(variable_scrutinee("x")),
                        struct_scrutinee_field(variable_scrutinee("y")),
                    ],
                )),
                variable("y"),
            ),
        ],
    );
    let desugared = desugar(node, &namespace).unwrap();
    assert_eq!(evaluate_node(&desugared, &namespace), Some(literal(u32_(5))));
}

#[test]
fn first_branch_wins_over_later_ones() {
    let namespace = Namespace::new();
    let node = match_(
        literal(u32_(5)),
        vec![
            match_branch(match_scrutinee_catchall(), literal(u32_(1))),
            match_branch(match_scrutinee(literal_scrutinee(u32_(5))), literal(u32_(2))),
            match_branch(match_scrutinee(variable_scrutinee("n")), variable("n")),
        ],
    );
    let desugared = desugar(node, &namespace).unwrap();
    assert_eq!(evaluate_node(&desugared, &namespace), Some(literal(u32_(1))));
}

#[test]
fn branch_bindings_do_not_leak() {
    let namespace = Namespace::new();
    let node = match_(
        literal(u32_(5)),
        vec![match_branch(match_scrutinee(variable_scrutinee("x")), variable("x"))],
    );
    let desugared = desugar(node, &namespace).unwrap();
    let program = block(vec![
        variable_declaraction("x", literal(u32_(7)), false),
        desugared,
        expression(variable("x")),
    ]);
    assert_eq!(evaluate(&program, &namespace), Some(literal(u32_(7))));
    let inner = match_(
        literal(u32_(5)),
        vec![match_branch(match_scrutinee(variable_scrutinee("x")), variable("x"))],
    );
    let value = evaluate(&as_expression(desugar(inner, &namespace).unwrap()), &namespace);
    assert_eq!(value, Some(literal(u32_(5))));
}

#[test]
fn tuple_match_round_trip() {
    let namespace = Namespace::new();
    let node = match_(
        tuple(vec![literal(u32_(1)), literal(u32_(2))]),
        vec![match_branch(
            match_scrutinee(match_desugar::language::constructors::tuple_scrutinee(vec![
                literal_scrutinee(u32_(1)),
                variable_scrutinee("b"),
            ])),
            variable("b"),
        )],
    );
    let desugared = desugar(node, &namespace).unwrap();
    assert_eq!(evaluate_node(&desugared, &namespace), Some(literal(u32_(2))));
}

#[test]
fn operators_evaluate() {
    let namespace = Namespace::new();
    let e = binop_and(
        binop_eq(literal(u32_(3)), literal(u32_(3))),
        binop_eq(tuple(vec![literal(u32_(1))]), tuple(vec![literal(u32_(2))])),
    );
    assert_eq!(evaluate(&e, &namespace), Some(literal(boolean(false))));
    let e = if_expression(literal(boolean(false)), literal(u32_(1)), None);
    assert_eq!(evaluate(&e, &namespace), Some(Expression::Unit {}));
    let e = if_expression(literal(u32_(0)), literal(u32_(1)), None);
    assert_eq!(evaluate(&e, &namespace), None);
}

#[test]
fn unbound_name_is_stuck() {
    let namespace = Namespace::new();
    assert_eq!(evaluate(&variable("nowhere"), &namespace), None);
}

#[test]
fn record_values_evaluate_fieldwise() {
    let mut namespace = Namespace::new();
    namespace.insert("a".to_string(), literal(u32_(9)));
    let e = struct_("P", vec![struct_field("f", variable("a"))]);
    assert_eq!(
        evaluate(&e, &namespace),
        Some(struct_("P", vec![struct_field("f", literal(u32_(9)))]))
    );
}
