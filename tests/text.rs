use match_desugar::language::constructors::{
    binop_eq, block, boolean, expression, literal, match_, match_branch, match_scrutinee,
    match_scrutinee_catchall, reassignment, struct_, struct_field, tree, tuple, u32_, variable,
    variable_declaraction, variable_scrutinee,
};
use match_desugar::language::Literal;
use match_desugar::text::decimal_string;

#[test]
fn literals_render_as_written() {
    assert_eq!(u32_(1234).text(), "1234");
    assert_eq!(Literal::U64(18446744073709551615).text(), "18446744073709551615");
    assert_eq!(Literal::U8(0).text(), "0");
    assert_eq!(boolean(false).text(), "false");
    assert_eq!(Literal::String("hi".to_string()).text(), "hi");
}

#[test]
fn decimal_digits() {
    assert_eq!(decimal_string(0), "0");
    assert_eq!(decimal_string(10), "10");
    assert_eq!(decimal_string(907), "907");
}

#[test]
fn declarations_render_as_source() {
    let node = variable_declaraction("x", literal(u32_(5)), true);
    assert_eq!(node.text(), "let mut x = 5");
    let node = variable_declaraction("y", literal(boolean(true)), false);
    assert_eq!(node.text(), "let y = true");
    let node = reassignment(variable("x"), literal(u32_(6)));
    assert_eq!(node.text(), "x = 6");
}

#[test]
fn expressions_render_as_source() {
    let e = binop_eq(tuple(vec![literal(u32_(1)), variable("a")]), literal(u32_(2)));
    assert_eq!(e.text(), "((1, a) == 2)");
    let e = struct_("Point", vec![struct_field("x", literal(u32_(5)))]);
    assert_eq!(e.text(), "Point { x: 5 }");
    let e = block(vec![variable_declaraction("z", literal(u32_(1)), false), expression(variable("z"))]);
    assert_eq!(e.text(), "{ let z = 1; z }");
}

#[test]
fn match_renders_branches() {
    let node = match_(
        variable("v"),
        vec![
            match_branch(match_scrutinee(variable_scrutinee("n")), variable("n")),
            match_branch(match_scrutinee_catchall(), literal(u32_(0))),
        ],
    );
    assert_eq!(node.text(), "match v { n => n, _ => 0 }");
}

#[test]
fn tree_puts_each_node_on_its_line() {
    let t = tree(vec![
        variable_declaraction("x", literal(u32_(1)), false),
        expression(variable("x")),
    ]);
    assert_eq!(t.text(), "let x = 1;\nx;\n");
}
