//! An executable reference evaluator: computes exactly the values that the
//! evaluator of `semantics` describes.

use vstd::prelude::*;
use crate::desugar::opt_view;
use crate::equality::expression_equal;
use crate::language::{
    copy_expression, copy_literal, exprs_view, fields_view, nodes_view, Declaration, ExprView,
    Expression, Ident, LitView, Literal, Node, NodeView, Op2, StructExpressionField,
};
use crate::namespace::Namespace;
use crate::semantics::{eval, eval_all, eval_block, eval_fields, eval_node};

verus! {

fn boolean_value(b: bool) -> (r: Expression)
    ensures
        r@ == ExprView::Lit(LitView::Boolean(b)),
{
    Expression::Literal { value: Literal::Boolean(b) }
}

proof fn lemma_all_prefix_stuck(es: Seq<ExprView>, env: Map<Seq<char>, ExprView>, k: int)
    requires
        0 <= k <= es.len(),
        eval_all(es.take(k), env) is None,
    ensures
        eval_all(es, env) is None,
    decreases es.len(),
{
    if k == es.len() {
        assert(es.take(k) =~= es);
    } else {
        assert(es.drop_last().take(k) =~= es.take(k));
        lemma_all_prefix_stuck(es.drop_last(), env, k);
    }
}

proof fn lemma_fields_prefix_stuck(fs: Seq<(Seq<char>, ExprView)>, env: Map<Seq<char>, ExprView>, k: int)
    requires
        0 <= k <= fs.len(),
        eval_fields(fs.take(k), env) is None,
    ensures
        eval_fields(fs, env) is None,
    decreases fs.len(),
{
    if k == fs.len() {
        assert(fs.take(k) =~= fs);
    } else {
        assert(fs.drop_last().take(k) =~= fs.take(k));
        lemma_fields_prefix_stuck(fs.drop_last(), env, k);
    }
}

/// The value of `e`, with names read from `env`; `None` where evaluation is stuck.
pub fn evaluate(e: &Expression, env: &Namespace) -> (r: Option<Expression>)
    ensures
        opt_view(r) == eval(e@, env@),
    decreases e,
{
    match e {
        Expression::Literal { value } => Some(Expression::Literal { value: copy_literal(value) }),
        Expression::VariableExpression { name } => match env.get(&name.primary_name) {
            Some(v) => Some(copy_expression(v)),
            None => None,
        },
        Expression::BinOp { op2, left, right } => {
            let x = evaluate(left, env);
            let y = evaluate(right, env);
            match (x, y) {
                (Some(x), Some(y)) => match op2 {
                    Op2::Eq => Some(boolean_value(expression_equal(&x, &y))),
                    Op2::And => match (&x, &y) {
                        (
                            Expression::Literal { value: Literal::Boolean(p) },
                            Expression::Literal { value: Literal::Boolean(q) },
                        ) => Some(boolean_value(*p && *q)),
                        _ => None,
                    },
                },
                _ => None,
            }
        },
        Expression::Unit {  } => Some(Expression::Unit {  }),
        Expression::Array { contents } => match evaluate_all(contents, env) {
            Some(vs) => Some(Expression::Array { contents: vs }),
            None => None,
        },
        Expression::CodeBlock { contents } => evaluate_block(&contents.contents, env),
        Expression::IfExp { condition, then_branch, else_branch } => {
            match evaluate(condition, env) {
                Some(Expression::Literal { value: Literal::Boolean(true) }) => evaluate(
                    then_branch,
                    env,
                ),
                Some(Expression::Literal { value: Literal::Boolean(false) }) => match else_branch {
                    Some(f) => evaluate(f, env),
                    None => Some(Expression::Unit {  }),
                },
                _ => None,
            }
        },
        Expression::Tuple { elems } => match evaluate_all(elems, env) {
            Some(vs) => Some(Expression::Tuple { elems: vs }),
            None => None,
        },
        Expression::StructExpression { struct_name, fields } => match evaluate_fields(fields, env) {
            Some(vs) => Some(
                Expression::StructExpression {
                    struct_name: Ident { primary_name: struct_name.primary_name.clone() },
                    fields: vs,
                },
            ),
            None => None,
        },
    }
}

fn evaluate_all(es: &Vec<Expression>, env: &Namespace) -> (r: Option<Vec<Expression>>)
    ensures
        match r {
            Some(vs) => eval_all(exprs_view(es@), env@) == Some(exprs_view(vs@)),
            None => eval_all(exprs_view(es@), env@) is None,
        },
    decreases es,
{
    let ghost ev = exprs_view(es@);
    let mut out: Vec<Expression> = Vec::new();
    let mut i: usize = 0;
    proof {
        assert(ev.take(0) =~= seq![]);
        assert(exprs_view(out@) =~= seq![]);
    }
    while i < es.len()
        invariant
            i <= es@.len(),
            ev == exprs_view(es@),
            out@.len() == i,
            eval_all(ev.take(i as int), env@) == Some(exprs_view(out@)),
        decreases es@.len() - i,
    {
        proof {
            assert(ev.take(i + 1).drop_last() =~= ev.take(i as int));
            assert(ev.take(i + 1).last() == es@[i as int]@);
            assert(decreases_to!(es => es[i as int]));
        }
        match evaluate(&es[i], env) {
            Some(v) => {
                let ghost before = out@;
                out.push(v);
                proof {
                    assert(exprs_view(out@) =~= exprs_view(before).push(v@));
                }
            },
            None => {
                proof {
                    lemma_all_prefix_stuck(ev, env@, i + 1);
                }
                return None;
            },
        }
        i += 1;
    }
    proof {
        assert(ev.take(i as int) =~= ev);
    }
    Some(out)
}

fn evaluate_fields(fs: &Vec<StructExpressionField>, env: &Namespace) -> (r: Option<
    Vec<StructExpressionField>,
>)
    ensures
        match r {
            Some(vs) => eval_fields(fields_view(fs@), env@) == Some(fields_view(vs@)),
            None => eval_fields(fields_view(fs@), env@) is None,
        },
    decreases fs,
{
    let ghost fv = fields_view(fs@);
    let mut out: Vec<StructExpressionField> = Vec::new();
    let mut i: usize = 0;
    proof {
        assert(fv.take(0) =~= seq![]);
        assert(fields_view(out@) =~= seq![]);
    }
    while i < fs.len()
        invariant
            i <= fs@.len(),
            fv == fields_view(fs@),
            out@.len() == i,
            eval_fields(fv.take(i as int), env@) == Some(fields_view(out@)),
        decreases fs@.len() - i,
    {
        proof {
            assert(fv.take(i + 1).drop_last() =~= fv.take(i as int));
            assert(fv.take(i + 1).last() == (fs@[i as int].name@, fs@[i as int].value@));
            assert(decreases_to!(fs => fs[i as int]));
        }
        match evaluate(&fs[i].value, env) {
            Some(v) => {
                let ghost before = out@;
                let name = Ident { primary_name: fs[i].name.primary_name.clone() };
                out.push(StructExpressionField { name, value: v });
                proof {
                    assert(fields_view(out@) =~= fields_view(before).push((fs@[i as int].name@, v@)));
                }
            },
            None => {
                proof {
                    lemma_fields_prefix_stuck(fv, env@, i + 1);
                }
                return None;
            },
        }
        i += 1;
    }
    proof {
        assert(fv.take(i as int) =~= fv);
    }
    Some(out)
}

/// The value of a block: bindings extend a scope of the block's own.
fn evaluate_block(ns: &Vec<Node>, env: &Namespace) -> (r: Option<Expression>)
    ensures
        opt_view(r) == eval_block(nodes_view(ns@), env@),
    decreases ns,
{
    let ghost nv = nodes_view(ns@);
    let ghost n = nv.len() as int;
    let mut local = env.clone();
    let mut i: usize = 0;
    proof {
        assert(nv.subrange(0, n) =~= nv);
    }
    while i < ns.len()
        invariant
            i <= ns@.len(),
            nv == nodes_view(ns@),
            n == nv.len(),
            eval_block(nv, env@) == eval_block(nv.subrange(i as int, n), local@),
        decreases ns@.len() - i,
    {
        let ghost sub = nv.subrange(i as int, n);
        proof {
            assert(sub[0] == ns@[i as int]@);
            assert(sub.drop_first() =~= nv.subrange(i + 1, n));
            assert(decreases_to!(ns => ns[i as int]));
        }
        match &ns[i] {
            Node::Declaration(Declaration::VariableDeclaration(d)) => {
                match evaluate(&d.body, &local) {
                    Some(v) => {
                        local.insert(d.name.primary_name.clone(), v);
                    },
                    None => return None,
                }
            },
            node => {
                if i + 1 == ns.len() {
                    return evaluate_node(node, &local);
                }
                match evaluate_node(node, &local) {
                    Some(_) => {},
                    None => return None,
                }
            },
        }
        i += 1;
    }
    Some(Expression::Unit {  })
}

/// The value of an expression node or a conditional node; `None` for other nodes.
pub fn evaluate_node(n: &Node, env: &Namespace) -> (r: Option<Expression>)
    ensures
        opt_view(r) == eval_node(n@, env@),
    decreases n,
{
    match n {
        Node::Expression(e) => evaluate(e, env),
        Node::IfExpression(ie) => match evaluate(&ie.primary, env) {
            Some(Expression::Literal { value: Literal::Boolean(true) }) => evaluate(&ie.left, env),
            Some(Expression::Literal { value: Literal::Boolean(false) }) => match &ie.right {
                Some(f) => evaluate(f, env),
                None => Some(Expression::Unit {  }),
            },
            _ => None,
        },
        _ => None,
    }
}

} // verus!
