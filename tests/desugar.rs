use match_desugar::desugar::desugar;
use match_desugar::language::constructors::{
    binop_and, binop_eq, block, boolean, expression, if_expression, if_statement, literal,
    literal_scrutinee, match_, match_branch, match_scrutinee, match_scrutinee_catchall, return_,
    struct_, struct_field, struct_scrutinee, struct_scrutinee_field, tree, tuple, tuple_scrutinee,
    u32_, variable, variable_declaraction, variable_scrutinee,
};
use match_desugar::language::Node;
use match_desugar::namespace::Namespace;
use match_desugar::transformer::{transform, transform_nodes};

fn point_namespace() -> Namespace {
    let mut namespace = Namespace::new();
    namespace.insert(
        "foo".to_string(),
        struct_(
            "Point",
            vec![
                struct_field("x", literal(u32_(5))),
                struct_field("y", literal(u32_(7))),
            ],
        ),
    );
    namespace
}

#[test]
fn match_simple() {
    let namespace = Namespace::new();
    let node = match_(
        literal(u32_(5)),
        vec![
            match_branch(
                match_scrutinee(literal_scrutinee(u32_(5))),
                literal(u32_(42)),
            ),
            match_branch(match_scrutinee(variable_scrutinee("foo")), variable("foo")),
        ],
    );
    let oracle_node = if_statement(
        binop_eq(literal(u32_(5)), literal(u32_(5))),
        block(vec![expression(literal(u32_(42)))]),
        Some(block(vec![
            variable_declaraction("foo", literal(u32_(5)), false),
            expression(variable("foo")),
        ])),
    );
    let desugared = desugar(node, &namespace);
    let desugared_node = desugared.unwrap();
    assert_eq!(desugared_node, oracle_node);
}

#[test]
fn match_struct() {
    let namespace = point_namespace();
    let node = match_(
        variable("foo"),
        vec![
            match_branch(
                match_scrutinee(struct_scrutinee(
                    "Point",
                    vec![
                        struct_scrutinee_field(variable_scrutinee("x")),
                        struct_scrutinee_field(literal_scrutinee(u32_(7))),
                    ],
                )),
                variable("x"),
            ),
            match_branch(
                match_scrutinee(struct_scrutinee(
                    "Point",
                    vec![
                        struct_scrutinee_field(variable_scrutinee("x")),
                        struct_scrutinee_field(variable_scrutinee("y")),
                    ],
                )),
                variable("y"),
            ),
        ],
    );
    let oracle_node = if_statement(
        binop_eq(literal(u32_(7)), literal(u32_(7))),
        block(vec![
            variable_declaraction("x", literal(u32_(5)), false),
            expression(variable("x")),
        ]),
        Some(block(vec![
            variable_declaraction("x", literal(u32_(5)), false),
            variable_declaraction("y", literal(u32_(7)), false),
            expression(variable("y")),
        ])),
    );
    let desugared = desugar(node, &namespace);
    let desugared_node = desugared.unwrap();
    assert_eq!(desugared_node, oracle_node);
}

#[test]
fn match_struct_with_scrutinee() {
    let namespace = point_namespace();
    let node = match_(
        variable("foo"),
        vec![
            match_branch(
                match_scrutinee(struct_scrutinee(
                    "Point",
                    vec![
                        struct_scrutinee_field(variable_scrutinee("x")),
                        struct_scrutinee_field(literal_scrutinee(u32_(7))),
                    ],
                )),
                variable("x"),
            ),
            match_branch(
                match_scrutinee(struct_scrutinee(
                    "Point",
                    vec![
                        struct_scrutinee_field(variable_scrutinee("x")),
                        struct_scrutinee_field(variable_scrutinee("y")),
                    ],
                )),
                variable("y"),
            ),
            match_branch(match_scrutinee_catchall(), literal(u32_(42))),
        ],
    );

    let oracle_node = if_statement(
        binop_eq(literal(u32_(7)), literal(u32_(7))),
        block(vec![
            variable_declaraction("x", literal(u32_(5)), false),
            expression(variable("x")),
        ]),
        Some(if_expression(
            literal(boolean(true)),
            block(vec![
                variable_declaraction("x", literal(u32_(5)), false),
                variable_declaraction("y", literal(u32_(7)), false),
                expression(variable("y")),
            ]),
            Some(block(vec![expression(literal(u32_(42)))])),
        )),
    );
    let desugared = desugar(node, &namespace);
    let desugared_node = desugared.unwrap();
    assert_eq!(desugared_node, oracle_node);
}

// The first branch's record pattern asks for y == 0 while the record holds
// y == 7: that branch does not match, and a branch that does not match makes
// the whole desugaring fail.
#[test]
fn match_struct_multiple() {
    let namespace = point_namespace();
    let node = match_(
        variable("foo"),
        vec![
            match_branch(
                match_scrutinee(struct_scrutinee(
                    "Point",
                    vec![
                        struct_scrutinee_field(variable_scrutinee("x")),
                        struct_scrutinee_field(literal_scrutinee(u32_(0))),
                    ],
                )),
                variable("x"),
            ),
            match_branch(
                match_scrutinee(struct_scrutinee(
                    "Point",
                    vec![
                        struct_scrutinee_field(literal_scrutinee(u32_(0))),
                        struct_scrutinee_field(variable_scrutinee("y")),
                    ],
                )),
                variable("y"),
            ),
            match_branch(
                match_scrutinee(struct_scrutinee(
                    "Point",
                    vec![
                        struct_scrutinee_field(variable_scrutinee("x")),
                        struct_scrutinee_field(variable_scrutinee("y")),
                    ],
                )),
                variable("y"),
            ),
        ],
    );
    let desugared = desugar(node, &namespace);
    assert_eq!(desugared, Err("Incompatible match provided".to_string()));
}

#[test]
fn incompatible_branch_fails_whole_match() {
    let namespace = point_namespace();
    let node = match_(
        variable("foo"),
        vec![
            match_branch(match_scrutinee(variable_scrutinee("p")), literal(u32_(1))),
            match_branch(
                match_scrutinee(tuple_scrutinee(vec![
                    variable_scrutinee("a"),
                    variable_scrutinee("b"),
                ])),
                literal(u32_(2)),
            ),
        ],
    );
    assert_eq!(
        desugar(node, &namespace),
        Err("Incompatible match provided".to_string())
    );
}

#[test]
fn empty_match_fails() {
    let namespace = Namespace::new();
    let node = match_(literal(u32_(1)), vec![]);
    assert_eq!(
        desugar(node, &namespace),
        Err("Match without branches provided".to_string())
    );
}

#[test]
fn single_catch_all_is_plain_block() {
    let namespace = Namespace::new();
    let node = match_(
        literal(u32_(1)),
        vec![match_branch(match_scrutinee_catchall(), literal(u32_(3)))],
    );
    let expected = expression(block(vec![expression(literal(u32_(3)))]));
    assert_eq!(desugar(node, &namespace), Ok(expected));
}

#[test]
fn single_guarded_branch_has_no_else() {
    let namespace = Namespace::new();
    let node = match_(
        literal(u32_(1)),
        vec![match_branch(match_scrutinee(literal_scrutinee(u32_(1))), literal(u32_(3)))],
    );
    let expected = if_statement(
        binop_eq(literal(u32_(1)), literal(u32_(1))),
        block(vec![expression(literal(u32_(3)))]),
        None,
    );
    assert_eq!(desugar(node, &namespace), Ok(expected));
}

#[test]
fn unguarded_branch_before_guarded_one_gets_true_guard() {
    let namespace = Namespace::new();
    let node = match_(
        literal(u32_(5)),
        vec![
            match_branch(match_scrutinee(variable_scrutinee("n")), variable("n")),
            match_branch(match_scrutinee(literal_scrutinee(u32_(5))), literal(u32_(2))),
        ],
    );
    let expected = if_statement(
        literal(boolean(true)),
        block(vec![
            variable_declaraction("n", literal(u32_(5)), false),
            expression(variable("n")),
        ]),
        Some(if_expression(
            binop_eq(literal(u32_(5)), literal(u32_(5))),
            block(vec![expression(literal(u32_(2)))]),
            None,
        )),
    );
    assert_eq!(desugar(node, &namespace), Ok(expected));
}

#[test]
fn obligations_join_left_to_right() {
    let namespace = Namespace::new();
    let node = match_(
        tuple(vec![literal(u32_(1)), literal(u32_(2))]),
        vec![match_branch(
            match_scrutinee(tuple_scrutinee(vec![
                literal_scrutinee(u32_(1)),
                literal_scrutinee(u32_(2)),
            ])),
            literal(u32_(0)),
        )],
    );
    let expected = if_statement(
        binop_and(
            binop_eq(literal(u32_(1)), literal(u32_(1))),
            binop_eq(literal(u32_(2)), literal(u32_(2))),
        ),
        block(vec![expression(literal(u32_(0)))]),
        None,
    );
    assert_eq!(desugar(node, &namespace), Ok(expected));
}

#[test]
fn other_nodes_pass_through() {
    let namespace = Namespace::new();
    let node = return_(literal(u32_(8)));
    assert_eq!(desugar(node, &namespace), Ok(return_(literal(u32_(8)))));
}

#[test]
fn transform_keeps_tree() {
    let namespace = Namespace::new();
    let nodes = vec![
        variable_declaraction("x", literal(boolean(true)), false),
        expression(block(vec![return_(variable("x"))])),
        if_statement(variable("x"), literal(u32_(1)), Some(literal(u32_(2)))),
    ];
    let expected: Vec<Node> = nodes.clone();
    let transformed = transform(tree(nodes), &namespace).unwrap();
    assert_eq!(transformed.nodes, expected);
    assert_eq!(transform_nodes(vec![], &namespace), Ok(vec![]));
}

fn simple_match() -> Node {
    match_(
        literal(u32_(5)),
        vec![
            match_branch(match_scrutinee(literal_scrutinee(u32_(5))), literal(u32_(42))),
            match_branch(match_scrutinee(variable_scrutinee("foo")), variable("foo")),
        ],
    )
}

fn simple_match_desugared() -> Node {
    if_statement(
        binop_eq(literal(u32_(5)), literal(u32_(5))),
        block(vec![expression(literal(u32_(42)))]),
        Some(block(vec![
            variable_declaraction("foo", literal(u32_(5)), false),
            expression(variable("foo")),
        ])),
    )
}

#[test]
fn transform_replaces_match_in_place() {
    let namespace = Namespace::new();
    let nodes = vec![
        variable_declaraction("y", literal(u32_(1)), false),
        simple_match(),
        return_(variable("y")),
    ];
    let expected = vec![
        variable_declaraction("y", literal(u32_(1)), false),
        simple_match_desugared(),
        return_(variable("y")),
    ];
    assert_eq!(transform_nodes(nodes, &namespace), Ok(expected));
}

#[test]
fn transform_reaches_nested_blocks() {
    let namespace = Namespace::new();
    let nodes = vec![variable_declaraction(
        "z",
        block(vec![simple_match()]),
        false,
    )];
    let expected = vec![variable_declaraction(
        "z",
        block(vec![simple_match_desugared()]),
        false,
    )];
    let transformed = transform(tree(nodes), &namespace).unwrap();
    assert_eq!(transformed.nodes, expected);
}

#[test]
fn transform_desugars_inner_match_first() {
    let namespace = Namespace::new();
    let outer = match_(
        literal(u32_(1)),
        vec![match_branch(match_scrutinee_catchall(), block(vec![simple_match()]))],
    );
    let expected = expression(block(vec![expression(block(vec![simple_match_desugared()]))]));
    assert_eq!(transform_nodes(vec![outer], &namespace), Ok(vec![expected]));
}

#[test]
fn transform_fails_on_incompatible_match() {
    let namespace = point_namespace();
    let bad = match_(
        variable("foo"),
        vec![match_branch(
            match_scrutinee(tuple_scrutinee(vec![variable_scrutinee("a")])),
            literal(u32_(0)),
        )],
    );
    let nodes = vec![simple_match(), expression(block(vec![bad]))];
    assert_eq!(
        transform_nodes(nodes, &namespace),
        Err("Incompatible match provided".to_string())
    );
}
