//! Structural equality of syntax trees, decided on their views.

use vstd::prelude::*;
use crate::language::{
    branches_view, exprs_view, field_pats_view, fields_view, nodes_view, pats_view, Declaration,
    Expression, Literal, MatchBranch, MatchScrutinee, Node, Scrutinee, StructExpressionField,
    StructScrutineeField,
};

verus! {

pub fn literal_equal(a: &Literal, b: &Literal) -> (r: bool)
    ensures
        r == (a@ == b@),
{
    match (a, b) {
        (Literal::U8(x), Literal::U8(y)) => *x == *y,
        (Literal::U16(x), Literal::U16(y)) => *x == *y,
        (Literal::U32(x), Literal::U32(y)) => *x == *y,
        (Literal::U64(x), Literal::U64(y)) => *x == *y,
        (Literal::String(x), Literal::String(y)) => *x == *y,
        (Literal::Boolean(x), Literal::Boolean(y)) => *x == *y,
        (Literal::Byte(x), Literal::Byte(y)) => *x == *y,
        _ => false,
    }
}

fn optional_equal(a: &Option<Box<Expression>>, b: &Option<Box<Expression>>) -> (r: bool)
    ensures
        r == (match a {
            Some(x) => Some(x@),
            None => None,
        } == match b {
            Some(y) => Some(y@),
            None => None,
        }),
    decreases a, 1nat,
{
    match (a, b) {
        (Some(x), Some(y)) => expression_equal(x, y),
        (None, None) => true,
        _ => false,
    }
}

pub fn expression_equal(a: &Expression, b: &Expression) -> (r: bool)
    ensures
        r == (a@ == b@),
    decreases a, 0nat,
{
    match (a, b) {
        (Expression::Literal { value: x }, Expression::Literal { value: y }) => literal_equal(x, y),
        (
            Expression::VariableExpression { name: x },
            Expression::VariableExpression { name: y },
        ) => x.primary_name == y.primary_name,
        (
            Expression::BinOp { op2: o1, left: l1, right: r1 },
            Expression::BinOp { op2: o2, left: l2, right: r2 },
        ) => *o1 == *o2 && expression_equal(l1, l2) && expression_equal(r1, r2),
        (Expression::Unit {  }, Expression::Unit {  }) => true,
        (Expression::Array { contents: x }, Expression::Array { contents: y }) => expressions_equal(
            x,
            y,
        ),
        (Expression::CodeBlock { contents: x }, Expression::CodeBlock { contents: y }) => nodes_equal(
            &x.contents,
            &y.contents,
        ),
        (
            Expression::IfExp { condition: c1, then_branch: t1, else_branch: e1 },
            Expression::IfExp { condition: c2, then_branch: t2, else_branch: e2 },
        ) => expression_equal(c1, c2) && expression_equal(t1, t2) && optional_equal(e1, e2),
        (Expression::Tuple { elems: x }, Expression::Tuple { elems: y }) => expressions_equal(x, y),
        (
            Expression::StructExpression { struct_name: n1, fields: f1 },
            Expression::StructExpression { struct_name: n2, fields: f2 },
        ) => n1.primary_name == n2.primary_name && fields_equal(f1, f2),
        _ => false,
    }
}

pub fn expressions_equal(a: &Vec<Expression>, b: &Vec<Expression>) -> (r: bool)
    ensures
        r == (exprs_view(a@) == exprs_view(b@)),
    decreases a, 0nat,
{
    if a.len() != b.len() {
        assert(exprs_view(a@).len() != exprs_view(b@).len());
        return false;
    }
    let mut i: usize = 0;
    while i < a.len()
        invariant
            i <= a@.len() == b@.len(),
            forall|j: int| 0 <= j < i ==> (#[trigger] a@[j])@ == b@[j]@,
        decreases a@.len() - i,
    {
        proof {
            assert(decreases_to!(a => a[i as int]));
        }
        if !expression_equal(&a[i], &b[i]) {
            assert(exprs_view(a@)[i as int] != exprs_view(b@)[i as int]);
            return false;
        }
        i += 1;
    }
    assert(exprs_view(a@) =~= exprs_view(b@));
    true
}

fn fields_equal(a: &Vec<StructExpressionField>, b: &Vec<StructExpressionField>) -> (r: bool)
    ensures
        r == (fields_view(a@) == fields_view(b@)),
    decreases a, 0nat,
{
    if a.len() != b.len() {
        assert(fields_view(a@).len() != fields_view(b@).len());
        return false;
    }
    let mut i: usize = 0;
    while i < a.len()
        invariant
            i <= a@.len() == b@.len(),
            forall|j: int|
                0 <= j < i ==> (#[trigger] a@[j]).name@ == b@[j].name@ && a@[j].value@
                    == b@[j].value@,
        decreases a@.len() - i,
    {
        proof {
            assert(decreases_to!(a => a[i as int]));
        }
        if a[i].name.primary_name != b[i].name.primary_name || !expression_equal(
            &a[i].value,
            &b[i].value,
        ) {
            assert(fields_view(a@)[i as int] != fields_view(b@)[i as int]);
            return false;
        }
        i += 1;
    }
    assert(fields_view(a@) =~= fields_view(b@));
    true
}

pub fn node_equal(a: &Node, b: &Node) -> (r: bool)
    ensures
        r == (a@ == b@),
    decreases a, 0nat,
{
    match (a, b) {
        (
            Node::Declaration(Declaration::VariableDeclaration(x)),
            Node::Declaration(Declaration::VariableDeclaration(y)),
        ) => x.name.primary_name == y.name.primary_name && expression_equal(&x.body, &y.body)
            && x.is_mutable == y.is_mutable,
        (
            Node::Declaration(Declaration::Reassignment(x)),
            Node::Declaration(Declaration::Reassignment(y)),
        ) => expression_equal(&x.lhs, &y.lhs) && expression_equal(&x.rhs, &y.rhs),
        (Node::Expression(x), Node::Expression(y)) => expression_equal(x, y),
        (Node::WhileLoop(x), Node::WhileLoop(y)) => expression_equal(&x.condition, &y.condition)
            && nodes_equal(&x.body.contents, &y.body.contents),
        (Node::ReturnStatement(x), Node::ReturnStatement(y)) => expression_equal(&x.expr, &y.expr),
        (Node::MatchStatement(x), Node::MatchStatement(y)) => expression_equal(
            &x.primary,
            &y.primary,
        ) && branches_equal(&x.branches, &y.branches),
        (Node::IfExpression(x), Node::IfExpression(y)) => {
            let right = match (&x.right, &y.right) {
                (Some(p), Some(q)) => expression_equal(p, q),
                (None, None) => true,
                _ => false,
            };
            expression_equal(&x.primary, &y.primary) && expression_equal(&x.left, &y.left) && right
        },
        _ => false,
    }
}

pub fn nodes_equal(a: &Vec<Node>, b: &Vec<Node>) -> (r: bool)
    ensures
        r == (nodes_view(a@) == nodes_view(b@)),
    decreases a, 0nat,
{
    if a.len() != b.len() {
        assert(nodes_view(a@).len() != nodes_view(b@).len());
        return false;
    }
    let mut i: usize = 0;
    while i < a.len()
        invariant
            i <= a@.len() == b@.len(),
            forall|j: int| 0 <= j < i ==> (#[trigger] a@[j])@ == b@[j]@,
        decreases a@.len() - i,
    {
        proof {
            assert(decreases_to!(a => a[i as int]));
        }
        if !node_equal(&a[i], &b[i]) {
            assert(nodes_view(a@)[i as int] != nodes_view(b@)[i as int]);
            return false;
        }
        i += 1;
    }
    assert(nodes_view(a@) =~= nodes_view(b@));
    true
}

fn branches_equal(a: &Vec<MatchBranch>, b: &Vec<MatchBranch>) -> (r: bool)
    ensures
        r == (branches_view(a@) == branches_view(b@)),
    decreases a, 0nat,
{
    if a.len() != b.len() {
        assert(branches_view(a@).len() != branches_view(b@).len());
        return false;
    }
    let mut i: usize = 0;
    while i < a.len()
        invariant
            i <= a@.len() == b@.len(),
            forall|j: int| 0 <= j < i ==> (#[trigger] a@[j])@ == b@[j]@,
        decreases a@.len() - i,
    {
        proof {
            assert(decreases_to!(a => a[i as int]));
        }
        let same_pattern = match (&a[i].condition, &b[i].condition) {
            (MatchScrutinee::CatchAll, MatchScrutinee::CatchAll) => true,
            (MatchScrutinee::Scrutinee(p), MatchScrutinee::Scrutinee(q)) => scrutinee_equal(p, q),
            _ => false,
        };
        if !same_pattern || !expression_equal(&a[i].result, &b[i].result) {
            assert(branches_view(a@)[i as int] != branches_view(b@)[i as int]);
            return false;
        }
        i += 1;
    }
    assert(branches_view(a@) =~= branches_view(b@));
    true
}

pub fn scrutinee_equal(a: &Scrutinee, b: &Scrutinee) -> (r: bool)
    ensures
        r == (a@ == b@),
    decreases a, 0nat,
{
    match (a, b) {
        (Scrutinee::Literal { value: x }, Scrutinee::Literal { value: y }) => literal_equal(x, y),
        (
            Scrutinee::VariableExpression { name: x },
            Scrutinee::VariableExpression { name: y },
        ) => x.primary_name == y.primary_name,
        (Scrutinee::Tuple { elems: x }, Scrutinee::Tuple { elems: y }) => scrutinees_equal(x, y),
        (
            Scrutinee::StructScrutinee { struct_name: n1, fields: f1 },
            Scrutinee::StructScrutinee { struct_name: n2, fields: f2 },
        ) => n1.primary_name == n2.primary_name && field_scrutinees_equal(f1, f2),
        _ => false,
    }
}

fn scrutinees_equal(a: &Vec<Scrutinee>, b: &Vec<Scrutinee>) -> (r: bool)
    ensures
        r == (pats_view(a@) == pats_view(b@)),
    decreases a, 0nat,
{
    if a.len() != b.len() {
        assert(pats_view(a@).len() != pats_view(b@).len());
        return false;
    }
    let mut i: usize = 0;
    while i < a.len()
        invariant
            i <= a@.len() == b@.len(),
            forall|j: int| 0 <= j < i ==> (#[trigger] a@[j])@ == b@[j]@,
        decreases a@.len() - i,
    {
        proof {
            assert(decreases_to!(a => a[i as int]));
        }
        if !scrutinee_equal(&a[i], &b[i]) {
            assert(pats_view(a@)[i as int] != pats_view(b@)[i as int]);
            return false;
        }
        i += 1;
    }
    assert(pats_view(a@) =~= pats_view(b@));
    true
}

fn field_scrutinees_equal(a: &Vec<StructScrutineeField>, b: &Vec<StructScrutineeField>) -> (r: bool)
    ensures
        r == (field_pats_view(a@) == field_pats_view(b@)),
    decreases a, 0nat,
{
    if a.len() != b.len() {
        assert(field_pats_view(a@).len() != field_pats_view(b@).len());
        return false;
    }
    let mut i: usize = 0;
    while i < a.len()
        invariant
            i <= a@.len() == b@.len(),
            forall|j: int| 0 <= j < i ==> (#[trigger] a@[j]).scrutinee@ == b@[j].scrutinee@,
        decreases a@.len() - i,
    {
        proof {
            assert(decreases_to!(a => a[i as int]));
        }
        if !scrutinee_equal(&a[i].scrutinee, &b[i].scrutinee) {
            assert(field_pats_view(a@)[i as int] != field_pats_view(b@)[i as int]);
            return false;
        }
        i += 1;
    }
    assert(field_pats_view(a@) =~= field_pats_view(b@));
    true
}

} // verus!
