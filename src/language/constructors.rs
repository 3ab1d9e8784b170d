//! Short constructors for building syntax trees by hand.

use vstd::prelude::*;
use crate::language::{
    branches_view, exprs_view, fields_view, nodes_view, pats_view, field_pats_view,
    CodeBlock, Declaration, ExprView, Expression, Ident, IfExpression, LitView, Literal,
    MatchBranch, MatchScrutinee, MatchStatement, Node, NodeView, Op2, PatView, Reassignment,
    ReturnStatement, Scrutinee, StructExpressionField, StructScrutineeField, Tree,
    VariableDeclaration,
};

verus! {

broadcast use vstd::string::to_string_from_display_ensures_for_str;

fn ident(name: &str) -> (r: Ident)
    ensures
        r@ == name@,
{
    Ident { primary_name: name.to_string() }
}

pub fn tree(nodes: Vec<Node>) -> (r: Tree)
    ensures
        r@ == nodes_view(nodes@),
{
    Tree { nodes }
}

pub fn variable_declaraction(name: &str, body: Expression, is_mutable: bool) -> (r: Node)
    ensures
        r@ == NodeView::Let(name@, body@, is_mutable),
{
    Node::Declaration(
        Declaration::VariableDeclaration(VariableDeclaration { name: ident(name), body, is_mutable }),
    )
}

pub fn expression(exp: Expression) -> (r: Node)
    ensures
        r@ == NodeView::Expr(exp@),
{
    Node::Expression(exp)
}

pub fn return_(expr: Expression) -> (r: Node)
    ensures
        r@ == NodeView::Return(expr@),
{
    Node::ReturnStatement(ReturnStatement { expr })
}

pub fn reassignment(lhs: Expression, rhs: Expression) -> (r: Node)
    ensures
        r@ == NodeView::Assign(lhs@, rhs@),
{
    Node::Declaration(Declaration::Reassignment(Reassignment { lhs: Box::new(lhs), rhs }))
}

pub fn match_(primary: Expression, branches: Vec<MatchBranch>) -> (r: Node)
    ensures
        r@ == NodeView::Match(primary@, branches_view(branches@)),
{
    Node::MatchStatement(MatchStatement { primary, branches })
}

pub fn match_branch(condition: MatchScrutinee, result: Expression) -> (r: MatchBranch)
    ensures
        r.condition == condition,
        r@.result == result@,
{
    MatchBranch { condition, result }
}

pub fn match_scrutinee(scrutinee: Scrutinee) -> (r: MatchScrutinee)
    ensures
        r == MatchScrutinee::Scrutinee(scrutinee),
{
    MatchScrutinee::Scrutinee(scrutinee)
}

pub fn match_scrutinee_catchall() -> (r: MatchScrutinee)
    ensures
        r == MatchScrutinee::CatchAll,
{
    MatchScrutinee::CatchAll
}

pub fn variable(name: &str) -> (r: Expression)
    ensures
        r@ == ExprView::Var(name@),
{
    Expression::VariableExpression { name: ident(name) }
}

pub fn literal(lit: Literal) -> (r: Expression)
    ensures
        r@ == ExprView::Lit(lit@),
{
    Expression::Literal { value: lit }
}

pub fn struct_(name: &str, fields: Vec<StructExpressionField>) -> (r: Expression)
    ensures
        r@ == ExprView::Record(name@, fields_view(fields@)),
{
    Expression::StructExpression { struct_name: ident(name), fields }
}

pub fn struct_field(name: &str, value: Expression) -> (r: StructExpressionField)
    ensures
        r.name@ == name@,
        r.value == value,
{
    StructExpressionField { name: ident(name), value }
}

pub fn tuple(elems: Vec<Expression>) -> (r: Expression)
    ensures
        r@ == ExprView::Tuple(exprs_view(elems@)),
{
    Expression::Tuple { elems }
}

pub fn boolean(b: bool) -> (r: Literal)
    ensures
        r@ == LitView::Boolean(b),
{
    Literal::Boolean(b)
}

pub fn block(nodes: Vec<Node>) -> (r: Expression)
    ensures
        r@ == ExprView::Block(nodes_view(nodes@)),
{
    Expression::CodeBlock { contents: CodeBlock { contents: nodes } }
}

pub fn binop_and(left: Expression, right: Expression) -> (r: Expression)
    ensures
        r@ == ExprView::BinOp(Op2::And, Box::new(left@), Box::new(right@)),
{
    Expression::BinOp { op2: Op2::And, left: Box::new(left), right: Box::new(right) }
}

pub fn binop_eq(left: Expression, right: Expression) -> (r: Expression)
    ensures
        r@ == ExprView::BinOp(Op2::Eq, Box::new(left@), Box::new(right@)),
{
    Expression::BinOp { op2: Op2::Eq, left: Box::new(left), right: Box::new(right) }
}

pub fn u32_(n: u32) -> (r: Literal)
    ensures
        r@ == LitView::U32(n),
{
    Literal::U32(n)
}

pub fn literal_scrutinee(lit: Literal) -> (r: Scrutinee)
    ensures
        r@ == PatView::Lit(lit@),
{
    Scrutinee::Literal { value: lit }
}

pub fn variable_scrutinee(name: &str) -> (r: Scrutinee)
    ensures
        r@ == PatView::Var(name@),
{
    Scrutinee::VariableExpression { name: ident(name) }
}

pub fn tuple_scrutinee(elems: Vec<Scrutinee>) -> (r: Scrutinee)
    ensures
        r@ == PatView::Tuple(pats_view(elems@)),
{
    Scrutinee::Tuple { elems }
}

pub fn struct_scrutinee(name: &str, fields: Vec<StructScrutineeField>) -> (r: Scrutinee)
    ensures
        r@ == PatView::Record(name@, field_pats_view(fields@)),
{
    Scrutinee::StructScrutinee { struct_name: ident(name), fields }
}

pub fn struct_scrutinee_field(scrutinee: Scrutinee) -> (r: StructScrutineeField)
    ensures
        r.scrutinee == scrutinee,
{
    StructScrutineeField { scrutinee }
}

pub fn if_statement(primary: Expression, left: Expression, right: Option<Expression>) -> (r: Node)
    ensures
        r@ == NodeView::If(
            primary@,
            left@,
            match right {
                Some(e) => Some(e@),
                None => None,
            },
        ),
{
    Node::IfExpression(IfExpression { primary, left, right })
}

pub fn if_expression(condition: Expression, then_branch: Expression, else_branch: Option<Expression>) -> (r: Expression)
    ensures
        r@ == ExprView::If(
            Box::new(condition@),
            Box::new(then_branch@),
            match else_branch {
                Some(e) => Some(Box::new(e@)),
                None => None,
            },
        ),
{
    let else_branch = match else_branch {
        Some(e) => Some(Box::new(e)),
        None => None,
    };
    Expression::IfExp { condition: Box::new(condition), then_branch: Box::new(then_branch), else_branch }
}

} // verus!
