//! The whole-tree walk: visits every node bottom-up, rebuilds nested blocks
//! and expressions, and replaces each match construct, once its scrutinee
//! and branch results are rewritten, by its desugaring. The first failure,
//! left to right, fails the whole walk.

use vstd::prelude::*;
use crate::desugar::{desugar, desugar_match_spec, lookups_bound, result_view};
use crate::language::{
    branches_view, exprs_view, fields_view, nodes_view, BranchView, CodeBlock, Declaration,
    ExprView, Expression, IfExpression, MatchBranch, MatchStatement, Node, NodeView, Reassignment,
    ReturnStatement, StructExpressionField, Tree, VariableDeclaration, WhileLoop,
};
use crate::namespace::Namespace;

verus! {

// ---------------------------------------------------------------------------
// What the walk computes. `None`: the walk reaches a match construct whose
// lookups the namespace cannot serve; `Some(Err(m))`: a desugaring fails
// with message `m`; `Some(Ok(x))`: the rewritten tree.
// ---------------------------------------------------------------------------

pub open spec fn norm_expr(e: ExprView, env: Map<Seq<char>, ExprView>) -> Option<
    Result<ExprView, Seq<char>>,
>
    decreases e,
{
    match e {
        ExprView::BinOp(op, a, b) => match norm_expr(*a, env) {
            Some(Ok(x)) => match norm_expr(*b, env) {
                Some(Ok(y)) => Some(Ok(ExprView::BinOp(op, Box::new(x), Box::new(y)))),
                Some(Err(m)) => Some(Err(m)),
                None => None,
            },
            Some(Err(m)) => Some(Err(m)),
            None => None,
        },
        ExprView::Array(es) => match norm_exprs(es, env) {
            Some(Ok(vs)) => Some(Ok(ExprView::Array(vs))),
            Some(Err(m)) => Some(Err(m)),
            None => None,
        },
        ExprView::Block(ns) => match norm_nodes(ns, env) {
            Some(Ok(vs)) => Some(Ok(ExprView::Block(vs))),
            Some(Err(m)) => Some(Err(m)),
            None => None,
        },
        ExprView::If(c, t, f) => match norm_expr(*c, env) {
            Some(Ok(c2)) => match norm_expr(*t, env) {
                Some(Ok(t2)) => match f {
                    Some(f) => match norm_expr(*f, env) {
                        Some(Ok(f2)) => Some(
                            Ok(ExprView::If(Box::new(c2), Box::new(t2), Some(Box::new(f2)))),
                        ),
                        Some(Err(m)) => Some(Err(m)),
                        None => None,
                    },
                    None => Some(Ok(ExprView::If(Box::new(c2), Box::new(t2), None))),
                },
                Some(Err(m)) => Some(Err(m)),
                None => None,
            },
            Some(Err(m)) => Some(Err(m)),
            None => None,
        },
        ExprView::Tuple(es) => match norm_exprs(es, env) {
            Some(Ok(vs)) => Some(Ok(ExprView::Tuple(vs))),
            Some(Err(m)) => Some(Err(m)),
            None => None,
        },
        ExprView::Record(tag, fs) => match norm_fields(fs, env) {
            Some(Ok(vs)) => Some(Ok(ExprView::Record(tag, vs))),
            Some(Err(m)) => Some(Err(m)),
            None => None,
        },
        other => Some(Ok(other)),
    }
}

pub open spec fn norm_exprs(es: Seq<ExprView>, env: Map<Seq<char>, ExprView>) -> Option<
    Result<Seq<ExprView>, Seq<char>>,
>
    decreases es,
{
    if es.len() == 0 {
        Some(Ok(seq![]))
    } else {
        match norm_exprs(es.drop_last(), env) {
            Some(Ok(vs)) => match norm_expr(es.last(), env) {
                Some(Ok(v)) => Some(Ok(vs.push(v))),
                Some(Err(m)) => Some(Err(m)),
                None => None,
            },
            other => other,
        }
    }
}

pub open spec fn norm_fields(fs: Seq<(Seq<char>, ExprView)>, env: Map<Seq<char>, ExprView>) -> Option<
    Result<Seq<(Seq<char>, ExprView)>, Seq<char>>,
>
    decreases fs,
{
    if fs.len() == 0 {
        Some(Ok(seq![]))
    } else {
        match norm_fields(fs.drop_last(), env) {
            Some(Ok(vs)) => match norm_expr(fs.last().1, env) {
                Some(Ok(v)) => Some(Ok(vs.push((fs.last().0, v)))),
                Some(Err(m)) => Some(Err(m)),
                None => None,
            },
            other => other,
        }
    }
}

/// Rewrites the result of each branch; patterns stay as they are.
pub open spec fn norm_branches(bs: Seq<BranchView>, env: Map<Seq<char>, ExprView>) -> Option<
    Result<Seq<BranchView>, Seq<char>>,
>
    decreases bs,
{
    if bs.len() == 0 {
        Some(Ok(seq![]))
    } else {
        match norm_branches(bs.drop_last(), env) {
            Some(Ok(vs)) => match norm_expr(bs.last().result, env) {
                Some(Ok(v)) => Some(Ok(vs.push(BranchView { pattern: bs.last().pattern, result: v }))),
                Some(Err(m)) => Some(Err(m)),
                None => None,
            },
            other => other,
        }
    }
}

pub open spec fn norm_node(n: NodeView, env: Map<Seq<char>, ExprView>) -> Option<
    Result<NodeView, Seq<char>>,
>
    decreases n,
{
    match n {
        NodeView::Let(name, e, m) => match norm_expr(e, env) {
            Some(Ok(v)) => Some(Ok(NodeView::Let(name, v, m))),
            Some(Err(msg)) => Some(Err(msg)),
            None => None,
        },
        NodeView::Assign(l, r) => match norm_expr(l, env) {
            Some(Ok(l2)) => match norm_expr(r, env) {
                Some(Ok(r2)) => Some(Ok(NodeView::Assign(l2, r2))),
                Some(Err(msg)) => Some(Err(msg)),
                None => None,
            },
            Some(Err(msg)) => Some(Err(msg)),
            None => None,
        },
        NodeView::Expr(e) => match norm_expr(e, env) {
            Some(Ok(v)) => Some(Ok(NodeView::Expr(v))),
            Some(Err(msg)) => Some(Err(msg)),
            None => None,
        },
        NodeView::While(c, ns) => match norm_expr(c, env) {
            Some(Ok(c2)) => match norm_nodes(ns, env) {
                Some(Ok(ns2)) => Some(Ok(NodeView::While(c2, ns2))),
                Some(Err(msg)) => Some(Err(msg)),
                None => None,
            },
            Some(Err(msg)) => Some(Err(msg)),
            None => None,
        },
        NodeView::Return(e) => match norm_expr(e, env) {
            Some(Ok(v)) => Some(Ok(NodeView::Return(v))),
            Some(Err(msg)) => Some(Err(msg)),
            None => None,
        },
        NodeView::Match(p, bs) => match norm_expr(p, env) {
            Some(Ok(p2)) => match norm_branches(bs, env) {
                Some(Ok(bs2)) => if lookups_bound(p2, bs2, env) {
                    Some(desugar_match_spec(p2, bs2, env))
                } else {
                    None
                },
                Some(Err(msg)) => Some(Err(msg)),
                None => None,
            },
            Some(Err(msg)) => Some(Err(msg)),
            None => None,
        },
        NodeView::If(c, t, f) => match norm_expr(c, env) {
            Some(Ok(c2)) => match norm_expr(t, env) {
                Some(Ok(t2)) => match f {
                    Some(f) => match norm_expr(f, env) {
                        Some(Ok(f2)) => Some(Ok(NodeView::If(c2, t2, Some(f2)))),
                        Some(Err(msg)) => Some(Err(msg)),
                        None => None,
                    },
                    None => Some(Ok(NodeView::If(c2, t2, None))),
                },
                Some(Err(msg)) => Some(Err(msg)),
                None => None,
            },
            Some(Err(msg)) => Some(Err(msg)),
            None => None,
        },
    }
}

pub open spec fn norm_nodes(ns: Seq<NodeView>, env: Map<Seq<char>, ExprView>) -> Option<
    Result<Seq<NodeView>, Seq<char>>,
>
    decreases ns,
{
    if ns.len() == 0 {
        Some(Ok(seq![]))
    } else {
        match norm_nodes(ns.drop_last(), env) {
            Some(Ok(vs)) => match norm_node(ns.last(), env) {
                Some(Ok(v)) => Some(Ok(vs.push(v))),
                Some(Err(m)) => Some(Err(m)),
                None => None,
            },
            other => other,
        }
    }
}

pub open spec fn expr_result(r: Result<Expression, String>) -> Result<ExprView, Seq<char>> {
    match r {
        Ok(e) => Ok(e@),
        Err(m) => Err(m@),
    }
}

pub open spec fn exprs_result(r: Result<Vec<Expression>, String>) -> Result<Seq<ExprView>, Seq<char>> {
    match r {
        Ok(v) => Ok(exprs_view(v@)),
        Err(m) => Err(m@),
    }
}

pub open spec fn fields_result(r: Result<Vec<StructExpressionField>, String>) -> Result<
    Seq<(Seq<char>, ExprView)>,
    Seq<char>,
> {
    match r {
        Ok(v) => Ok(fields_view(v@)),
        Err(m) => Err(m@),
    }
}

pub open spec fn branches_result(r: Result<Vec<MatchBranch>, String>) -> Result<
    Seq<BranchView>,
    Seq<char>,
> {
    match r {
        Ok(v) => Ok(branches_view(v@)),
        Err(m) => Err(m@),
    }
}

pub open spec fn nodes_result(r: Result<Vec<Node>, String>) -> Result<Seq<NodeView>, Seq<char>> {
    match r {
        Ok(v) => Ok(nodes_view(v@)),
        Err(m) => Err(m@),
    }
}

/// A one-node result of a rewrite step, as `norm_node` gives it.
pub open spec fn single_node(r: Result<Vec<Node>, String>, want: Option<Result<NodeView, Seq<char>>>) -> bool {
    match r {
        Ok(v) => v@.len() == 1 && want == Some(Ok::<NodeView, Seq<char>>(v@[0]@)),
        Err(m) => want == Some(Err::<NodeView, Seq<char>>(m@)),
    }
}

// ---------------------------------------------------------------------------
// Once a prefix fails or gets stuck, so does the whole sequence.
// ---------------------------------------------------------------------------

proof fn lemma_nodes_prefix(ns: Seq<NodeView>, env: Map<Seq<char>, ExprView>, k: int)
    requires
        0 <= k <= ns.len(),
        !(norm_nodes(ns.take(k), env) matches Some(Ok(_))),
    ensures
        norm_nodes(ns, env) == norm_nodes(ns.take(k), env),
    decreases ns.len(),
{
    if k == ns.len() {
        assert(ns.take(k) =~= ns);
    } else {
        assert(ns.drop_last().take(k) =~= ns.take(k));
        lemma_nodes_prefix(ns.drop_last(), env, k);
    }
}

proof fn lemma_exprs_prefix(es: Seq<ExprView>, env: Map<Seq<char>, ExprView>, k: int)
    requires
        0 <= k <= es.len(),
        !(norm_exprs(es.take(k), env) matches Some(Ok(_))),
    ensures
        norm_exprs(es, env) == norm_exprs(es.take(k), env),
    decreases es.len(),
{
    if k == es.len() {
        assert(es.take(k) =~= es);
    } else {
        assert(es.drop_last().take(k) =~= es.take(k));
        lemma_exprs_prefix(es.drop_last(), env, k);
    }
}

proof fn lemma_fields_prefix(fs: Seq<(Seq<char>, ExprView)>, env: Map<Seq<char>, ExprView>, k: int)
    requires
        0 <= k <= fs.len(),
        !(norm_fields(fs.take(k), env) matches Some(Ok(_))),
    ensures
        norm_fields(fs, env) == norm_fields(fs.take(k), env),
    decreases fs.len(),
{
    if k == fs.len() {
        assert(fs.take(k) =~= fs);
    } else {
        assert(fs.drop_last().take(k) =~= fs.take(k));
        lemma_fields_prefix(fs.drop_last(), env, k);
    }
}

proof fn lemma_branches_prefix(bs: Seq<BranchView>, env: Map<Seq<char>, ExprView>, k: int)
    requires
        0 <= k <= bs.len(),
        !(norm_branches(bs.take(k), env) matches Some(Ok(_))),
    ensures
        norm_branches(bs, env) == norm_branches(bs.take(k), env),
    decreases bs.len(),
{
    if k == bs.len() {
        assert(bs.take(k) =~= bs);
    } else {
        assert(bs.drop_last().take(k) =~= bs.take(k));
        lemma_branches_prefix(bs.drop_last(), env, k);
    }
}

/// The walk keeps the nodes in place: a walk that succeeds gives one node
/// for each node, the normalization of the node at the same position. For a
/// match construct, that is the desugaring of the construct with its
/// scrutinee and branch results normalized.
pub proof fn lemma_walk_in_place(ns: Seq<NodeView>, env: Map<Seq<char>, ExprView>)
    requires
        norm_nodes(ns, env) matches Some(Ok(_)),
    ensures
        ({
            let out = norm_nodes(ns, env)->Some_0->Ok_0;
            &&& out.len() == ns.len()
            &&& forall|i: int|
                0 <= i < ns.len() ==> norm_node(#[trigger] ns[i], env) == Some(
                    Ok::<NodeView, Seq<char>>(out[i]),
                )
            &&& forall|i: int|
                0 <= i < ns.len() && (#[trigger] ns[i]) is Match ==> ({
                    let p = ns[i]->Match_0;
                    let bs = ns[i]->Match_1;
                    &&& norm_expr(p, env) matches Some(Ok(p2))
                    &&& norm_branches(bs, env) matches Some(Ok(bs2))
                    &&& desugar_match_spec(
                        norm_expr(p, env)->Some_0->Ok_0,
                        norm_branches(bs, env)->Some_0->Ok_0,
                        env,
                    ) == Ok::<NodeView, Seq<char>>(out[i])
                })
        }),
    decreases ns.len(),
{
    if ns.len() > 0 {
        let init = ns.drop_last();
        lemma_walk_in_place(init, env);
        let out = norm_nodes(ns, env)->Some_0->Ok_0;
        let out0 = norm_nodes(init, env)->Some_0->Ok_0;
        assert forall|i: int| 0 <= i < ns.len() implies norm_node(#[trigger] ns[i], env) == Some(
            Ok::<NodeView, Seq<char>>(out[i]),
        ) by {
            if i < ns.len() - 1 {
                assert(ns[i] == init[i]);
                assert(out[i] == out0[i]);
            }
        }
    }
}

// ---------------------------------------------------------------------------
// The walk
// ---------------------------------------------------------------------------

pub fn transform(tree: Tree, namespace: &Namespace) -> (r: Result<Tree, String>)
    requires
        norm_nodes(tree@, namespace@) is Some,
    ensures
        norm_nodes(tree@, namespace@) == Some(
            match r {
                Ok(t) => Ok::<Seq<NodeView>, Seq<char>>(t@),
                Err(m) => Err(m@),
            },
        ),
{
    match transform_nodes(tree.nodes, namespace) {
        Ok(nodes) => Ok(Tree { nodes }),
        Err(m) => Err(m),
    }
}

pub fn transform_nodes(nodes: Vec<Node>, namespace: &Namespace) -> (r: Result<Vec<Node>, String>)
    requires
        norm_nodes(nodes_view(nodes@), namespace@) is Some,
    ensures
        norm_nodes(nodes_view(nodes@), namespace@) == Some(nodes_result(r)),
    decreases nodes, 1nat,
{
    let ghost orig = nodes@;
    let ghost nv = nodes_view(nodes@);
    let ghost env = namespace@;
    let mut rest = nodes;
    let mut new_tree: Vec<Node> = Vec::new();
    proof {
        assert(nv.take(0) =~= seq![]);
        assert(nodes_view(new_tree@) =~= seq![]);
    }
    while rest.len() > 0
        invariant
            new_tree@.len() + rest@.len() == orig.len(),
            forall|j: int| 0 <= j < rest@.len() ==> #[trigger] rest@[j] == orig[new_tree@.len() + j],
            orig == nodes@,
            nv == nodes_view(orig),
            env == namespace@,
            norm_nodes(nv, env) is Some,
            norm_nodes(nv.take(new_tree@.len() as int), env) == Some(
                Ok::<Seq<NodeView>, Seq<char>>(nodes_view(new_tree@)),
            ),
        decreases rest@.len(),
    {
        let ghost k = new_tree@.len() as int;
        let ghost before = rest@;
        let node = rest.remove(0);
        proof {
            assert(node == orig[k]);
            assert(nv[k] == node@);
            assert(decreases_to!(nodes => nodes@[k]));
            assert forall|j: int| 0 <= j < rest@.len() implies #[trigger] rest@[j] == orig[k + 1
                + j] by {
                assert(rest@[j] == before[j + 1]);
            }
            assert(nv.take(k + 1).drop_last() =~= nv.take(k));
            assert(nv.take(k + 1).last() == nv[k]);
            if norm_node(nv[k], env) is None {
                lemma_nodes_prefix(nv, env, k + 1);
            }
        }
        let ghost node_view = node@;
        let step = match node {
            Node::Declaration(declaration) => transform_declaration(declaration, namespace),
            Node::Expression(expression) => transform_expression(expression, namespace),
            Node::MatchStatement(match_statement) => transform_match_statement(
                match_statement,
                namespace,
            ),
            Node::ReturnStatement(return_statement) => transform_return_statement(
                return_statement,
                namespace,
            ),
            Node::WhileLoop(while_loop) => transform_while_loop(while_loop, namespace),
            Node::IfExpression(if_expression) => transform_if_expression(if_expression, namespace),
        };
        match step {
            Ok(mut new_nodes) => {
                let ghost done = new_tree@;
                new_tree.append(&mut new_nodes);
                proof {
                    assert(nodes_view(new_tree@) =~= nodes_view(done).push(new_tree@[k]@));
                }
            },
            Err(m) => {
                proof {
                    lemma_nodes_prefix(nv, env, k + 1);
                }
                return Err(m);
            },
        }
    }
    proof {
        assert(nv.take(orig.len() as int) =~= nv);
    }
    Ok(new_tree)
}

fn transform_match_statement(match_statement: MatchStatement, namespace: &Namespace) -> (r: Result<
    Vec<Node>,
    String,
>)
    requires
        norm_node(Node::MatchStatement(match_statement)@, namespace@) is Some,
    ensures
        single_node(r, norm_node(Node::MatchStatement(match_statement)@, namespace@)),
    decreases match_statement, 0nat,
{
    let MatchStatement { primary, branches } = match_statement;
    let primary = match reify_expression(primary, namespace) {
        Ok(p) => p,
        Err(m) => return Err(m),
    };
    let branches = match reify_branches(branches, namespace) {
        Ok(bs) => bs,
        Err(m) => return Err(m),
    };
    match desugar(Node::MatchStatement(MatchStatement { primary, branches }), namespace) {
        Ok(n) => Ok(vec![n]),
        Err(m) => Err(m),
    }
}

fn transform_declaration(declaration: Declaration, namespace: &Namespace) -> (r: Result<
    Vec<Node>,
    String,
>)
    requires
        norm_node(Node::Declaration(declaration)@, namespace@) is Some,
    ensures
        single_node(r, norm_node(Node::Declaration(declaration)@, namespace@)),
    decreases declaration, 0nat,
{
    match declaration {
        Declaration::Reassignment(reassignment) => match reify_reassignment(reassignment, namespace) {
            Ok(a) => Ok(vec![Node::Declaration(Declaration::Reassignment(a))]),
            Err(m) => Err(m),
        },
        Declaration::VariableDeclaration(variable_declaration) => match reify_variable_declaration(
            variable_declaration,
            namespace,
        ) {
            Ok(d) => Ok(vec![Node::Declaration(Declaration::VariableDeclaration(d))]),
            Err(m) => Err(m),
        },
    }
}

fn transform_expression(expression: Expression, namespace: &Namespace) -> (r: Result<
    Vec<Node>,
    String,
>)
    requires
        norm_node(Node::Expression(expression)@, namespace@) is Some,
    ensures
        single_node(r, norm_node(Node::Expression(expression)@, namespace@)),
    decreases expression, 1nat,
{
    match reify_expression(expression, namespace) {
        Ok(e) => Ok(vec![Node::Expression(e)]),
        Err(m) => Err(m),
    }
}

fn transform_return_statement(return_statement: ReturnStatement, namespace: &Namespace) -> (r:
    Result<Vec<Node>, String>)
    requires
        norm_node(Node::ReturnStatement(return_statement)@, namespace@) is Some,
    ensures
        single_node(r, norm_node(Node::ReturnStatement(return_statement)@, namespace@)),
    decreases return_statement, 0nat,
{
    match reify_expression(return_statement.expr, namespace) {
        Ok(expr) => Ok(vec![Node::ReturnStatement(ReturnStatement { expr })]),
        Err(m) => Err(m),
    }
}

fn transform_while_loop(while_loop: WhileLoop, namespace: &Namespace) -> (r: Result<
    Vec<Node>,
    String,
>)
    requires
        norm_node(Node::WhileLoop(while_loop)@, namespace@) is Some,
    ensures
        single_node(r, norm_node(Node::WhileLoop(while_loop)@, namespace@)),
    decreases while_loop, 0nat,
{
    let WhileLoop { condition, body } = while_loop;
    let condition = match reify_expression(condition, namespace) {
        Ok(c) => c,
        Err(m) => return Err(m),
    };
    match reify_codeblock(body, namespace) {
        Ok(body) => Ok(vec![Node::WhileLoop(WhileLoop { condition, body })]),
        Err(m) => Err(m),
    }
}

fn transform_if_expression(if_expression: IfExpression, namespace: &Namespace) -> (r: Result<
    Vec<Node>,
    String,
>)
    requires
        norm_node(Node::IfExpression(if_expression)@, namespace@) is Some,
    ensures
        single_node(r, norm_node(Node::IfExpression(if_expression)@, namespace@)),
    decreases if_expression, 0nat,
{
    let IfExpression { primary, left, right } = if_expression;
    let primary = match reify_expression(primary, namespace) {
        Ok(p) => p,
        Err(m) => return Err(m),
    };
    let left = match reify_expression(left, namespace) {
        Ok(l) => l,
        Err(m) => return Err(m),
    };
    let right = match right {
        Some(e) => match reify_expression(e, namespace) {
            Ok(e) => Some(e),
            Err(m) => return Err(m),
        },
        None => None,
    };
    Ok(vec![Node::IfExpression(IfExpression { primary, left, right })])
}

fn reify_branches(branches: Vec<MatchBranch>, namespace: &Namespace) -> (r: Result<
    Vec<MatchBranch>,
    String,
>)
    requires
        norm_branches(branches_view(branches@), namespace@) is Some,
    ensures
        norm_branches(branches_view(branches@), namespace@) == Some(branches_result(r)),
    decreases branches, 0nat,
{
    let ghost orig = branches@;
    let ghost bv = branches_view(branches@);
    let ghost env = namespace@;
    let mut rest = branches;
    let mut out: Vec<MatchBranch> = Vec::new();
    proof {
        assert(bv.take(0) =~= seq![]);
        assert(branches_view(out@) =~= seq![]);
    }
    while rest.len() > 0
        invariant
            out@.len() + rest@.len() == orig.len(),
            forall|j: int| 0 <= j < rest@.len() ==> #[trigger] rest@[j] == orig[out@.len() + j],
            orig == branches@,
            bv == branches_view(orig),
            env == namespace@,
            norm_branches(bv, env) is Some,
            norm_branches(bv.take(out@.len() as int), env) == Some(
                Ok::<Seq<BranchView>, Seq<char>>(branches_view(out@)),
            ),
        decreases rest@.len(),
    {
        let ghost k = out@.len() as int;
        let ghost before = rest@;
        let b = rest.remove(0);
        proof {
            assert(b == orig[k]);
            assert(bv[k] == b@);
            assert(decreases_to!(branches => branches@[k]));
            assert forall|j: int| 0 <= j < rest@.len() implies #[trigger] rest@[j] == orig[k + 1
                + j] by {
                assert(rest@[j] == before[j + 1]);
            }
            assert(bv.take(k + 1).drop_last() =~= bv.take(k));
            assert(bv.take(k + 1).last() == bv[k]);
            if norm_expr(bv[k].result, env) is None {
                lemma_branches_prefix(bv, env, k + 1);
            }
        }
        let MatchBranch { condition, result } = b;
        match reify_expression(result, namespace) {
            Ok(result) => {
                let ghost done = out@;
                let nb = MatchBranch { condition, result };
                out.push(nb);
                proof {
                    assert(branches_view(out@) =~= branches_view(done).push(out@[k]@));
                }
            },
            Err(m) => {
                proof {
                    lemma_branches_prefix(bv, env, k + 1);
                }
                return Err(m);
            },
        }
    }
    proof {
        assert(bv.take(orig.len() as int) =~= bv);
    }
    Ok(out)
}

fn reify_expressions(exps: Vec<Expression>, namespace: &Namespace) -> (r: Result<
    Vec<Expression>,
    String,
>)
    requires
        norm_exprs(exprs_view(exps@), namespace@) is Some,
    ensures
        norm_exprs(exprs_view(exps@), namespace@) == Some(exprs_result(r)),
    decreases exps, 0nat,
{
    let ghost orig = exps@;
    let ghost ev = exprs_view(exps@);
    let ghost env = namespace@;
    let mut rest = exps;
    let mut out: Vec<Expression> = Vec::new();
    proof {
        assert(ev.take(0) =~= seq![]);
        assert(exprs_view(out@) =~= seq![]);
    }
    while rest.len() > 0
        invariant
            out@.len() + rest@.len() == orig.len(),
            forall|j: int| 0 <= j < rest@.len() ==> #[trigger] rest@[j] == orig[out@.len() + j],
            orig == exps@,
            ev == exprs_view(orig),
            env == namespace@,
            norm_exprs(ev, env) is Some,
            norm_exprs(ev.take(out@.len() as int), env) == Some(
                Ok::<Seq<ExprView>, Seq<char>>(exprs_view(out@)),
            ),
        decreases rest@.len(),
    {
        let ghost k = out@.len() as int;
        let ghost before = rest@;
        let e = rest.remove(0);
        proof {
            assert(e == orig[k]);
            assert(ev[k] == e@);
            assert(decreases_to!(exps => exps@[k]));
            assert forall|j: int| 0 <= j < rest@.len() implies #[trigger] rest@[j] == orig[k + 1
                + j] by {
                assert(rest@[j] == before[j + 1]);
            }
            assert(ev.take(k + 1).drop_last() =~= ev.take(k));
            assert(ev.take(k + 1).last() == ev[k]);
            if norm_expr(ev[k], env) is None {
                lemma_exprs_prefix(ev, env, k + 1);
            }
        }
        match reify_expression(e, namespace) {
            Ok(v) => {
                let ghost done = out@;
                out.push(v);
                proof {
                    assert(exprs_view(out@) =~= exprs_view(done).push(out@[k]@));
                }
            },
            Err(m) => {
                proof {
                    lemma_exprs_prefix(ev, env, k + 1);
                }
                return Err(m);
            },
        }
    }
    proof {
        assert(ev.take(orig.len() as int) =~= ev);
    }
    Ok(out)
}

fn reify_fields(fields: Vec<StructExpressionField>, namespace: &Namespace) -> (r: Result<
    Vec<StructExpressionField>,
    String,
>)
    requires
        norm_fields(fields_view(fields@), namespace@) is Some,
    ensures
        norm_fields(fields_view(fields@), namespace@) == Some(fields_result(r)),
    decreases fields, 0nat,
{
    let ghost orig = fields@;
    let ghost fv = fields_view(fields@);
    let ghost env = namespace@;
    let mut rest = fields;
    let mut out: Vec<StructExpressionField> = Vec::new();
    proof {
        assert(fv.take(0) =~= seq![]);
        assert(fields_view(out@) =~= seq![]);
    }
    while rest.len() > 0
        invariant
            out@.len() + rest@.len() == orig.len(),
            forall|j: int| 0 <= j < rest@.len() ==> #[trigger] rest@[j] == orig[out@.len() + j],
            orig == fields@,
            fv == fields_view(orig),
            env == namespace@,
            norm_fields(fv, env) is Some,
            norm_fields(fv.take(out@.len() as int), env) == Some(
                Ok::<Seq<(Seq<char>, ExprView)>, Seq<char>>(fields_view(out@)),
            ),
        decreases rest@.len(),
    {
        let ghost k = out@.len() as int;
        let ghost before = rest@;
        let f = rest.remove(0);
        proof {
            assert(f == orig[k]);
            assert(fv[k] == (f.name@, f.value@));
            assert(decreases_to!(fields => fields@[k]));
            assert forall|j: int| 0 <= j < rest@.len() implies #[trigger] rest@[j] == orig[k + 1
                + j] by {
                assert(rest@[j] == before[j + 1]);
            }
            assert(fv.take(k + 1).drop_last() =~= fv.take(k));
            assert(fv.take(k + 1).last() == fv[k]);
            if norm_expr(fv[k].1, env) is None {
                lemma_fields_prefix(fv, env, k + 1);
            }
        }
        let StructExpressionField { name, value } = f;
        match reify_expression(value, namespace) {
            Ok(v) => {
                let ghost done = out@;
                out.push(StructExpressionField { name, value: v });
                proof {
                    assert(fields_view(out@) =~= fields_view(done).push(
                        (out@[k].name@, out@[k].value@),
                    ));
                }
            },
            Err(m) => {
                proof {
                    lemma_fields_prefix(fv, env, k + 1);
                }
                return Err(m);
            },
        }
    }
    proof {
        assert(fv.take(orig.len() as int) =~= fv);
    }
    Ok(out)
}

fn reify_expression(exp: Expression, namespace: &Namespace) -> (r: Result<Expression, String>)
    requires
        norm_expr(exp@, namespace@) is Some,
    ensures
        norm_expr(exp@, namespace@) == Some(expr_result(r)),
    decreases exp, 0nat,
{
    match exp {
        Expression::Literal { value } => Ok(Expression::Literal { value }),
        Expression::VariableExpression { name } => Ok(Expression::VariableExpression { name }),
        Expression::Unit {  } => Ok(Expression::Unit {  }),
        Expression::BinOp { op2, left, right } => {
            let left = match reify_expression(*left, namespace) {
                Ok(l) => l,
                Err(m) => return Err(m),
            };
            match reify_expression(*right, namespace) {
                Ok(right) => Ok(
                    Expression::BinOp { op2, left: Box::new(left), right: Box::new(right) },
                ),
                Err(m) => Err(m),
            }
        },
        Expression::Array { contents } => match reify_expressions(contents, namespace) {
            Ok(contents) => Ok(Expression::Array { contents }),
            Err(m) => Err(m),
        },
        Expression::CodeBlock { contents } => match reify_codeblock(contents, namespace) {
            Ok(contents) => Ok(Expression::CodeBlock { contents }),
            Err(m) => Err(m),
        },
        Expression::IfExp { condition, then_branch, else_branch } => {
            let condition = match reify_expression(*condition, namespace) {
                Ok(c) => c,
                Err(m) => return Err(m),
            };
            let then_branch = match reify_expression(*then_branch, namespace) {
                Ok(t) => t,
                Err(m) => return Err(m),
            };
            let else_branch = match else_branch {
                Some(x) => match reify_expression(*x, namespace) {
                    Ok(x) => Some(Box::new(x)),
                    Err(m) => return Err(m),
                },
                None => None,
            };
            Ok(
                Expression::IfExp {
                    condition: Box::new(condition),
                    then_branch: Box::new(then_branch),
                    else_branch,
                },
            )
        },
        Expression::Tuple { elems } => match reify_expressions(elems, namespace) {
            Ok(elems) => Ok(Expression::Tuple { elems }),
            Err(m) => Err(m),
        },
        Expression::StructExpression { struct_name, fields } => match reify_fields(
            fields,
            namespace,
        ) {
            Ok(fields) => Ok(Expression::StructExpression { struct_name, fields }),
            Err(m) => Err(m),
        },
    }
}

fn reify_codeblock(codeblock: CodeBlock, namespace: &Namespace) -> (r: Result<CodeBlock, String>)
    requires
        norm_nodes(nodes_view(codeblock.contents@), namespace@) is Some,
    ensures
        norm_nodes(nodes_view(codeblock.contents@), namespace@) == Some(
            match r {
                Ok(c) => Ok::<Seq<NodeView>, Seq<char>>(nodes_view(c.contents@)),
                Err(m) => Err(m@),
            },
        ),
    decreases codeblock, 2nat,
{
    match transform_nodes(codeblock.contents, namespace) {
        Ok(contents) => Ok(CodeBlock { contents }),
        Err(m) => Err(m),
    }
}

fn reify_reassignment(reassignment: Reassignment, namespace: &Namespace) -> (r: Result<
    Reassignment,
    String,
>)
    requires
        norm_node(NodeView::Assign(reassignment.lhs@, reassignment.rhs@), namespace@) is Some,
    ensures
        norm_node(NodeView::Assign(reassignment.lhs@, reassignment.rhs@), namespace@) == Some(
            match r {
                Ok(a) => Ok::<NodeView, Seq<char>>(NodeView::Assign(a.lhs@, a.rhs@)),
                Err(m) => Err(m@),
            },
        ),
    decreases reassignment, 0nat,
{
    let Reassignment { lhs, rhs } = reassignment;
    let lhs = match reify_expression(*lhs, namespace) {
        Ok(l) => l,
        Err(m) => return Err(m),
    };
    match reify_expression(rhs, namespace) {
        Ok(rhs) => Ok(Reassignment { lhs: Box::new(lhs), rhs }),
        Err(m) => Err(m),
    }
}

fn reify_variable_declaration(variable_declaration: VariableDeclaration, namespace: &Namespace) -> (r:
    Result<VariableDeclaration, String>)
    requires
        norm_node(
            NodeView::Let(
                variable_declaration.name@,
                variable_declaration.body@,
                variable_declaration.is_mutable,
            ),
            namespace@,
        ) is Some,
    ensures
        norm_node(
            NodeView::Let(
                variable_declaration.name@,
                variable_declaration.body@,
                variable_declaration.is_mutable,
            ),
            namespace@,
        ) == Some(
            match r {
                Ok(d) => Ok::<NodeView, Seq<char>>(NodeView::Let(d.name@, d.body@, d.is_mutable)),
                Err(m) => Err(m@),
            },
        ),
    decreases variable_declaration, 0nat,
{
    let VariableDeclaration { name, body, is_mutable } = variable_declaration;
    match reify_expression(body, namespace) {
        Ok(body) => Ok(VariableDeclaration { name, body, is_mutable }),
        Err(m) => Err(m),
    }
}

} // verus!
