//! A reference evaluator for expressions, and what it shows of desugaring:
//! the chain tries the first branch first, keeps each branch's bindings to
//! itself, and computes what the match construct computes.

use vstd::prelude::*;
use crate::desugar::{
    arms_of, body_of, branch_unify, chain, desugar_match_spec, guard_of, guard_or_true, lets_of,
    matched_before,
};
use crate::language::{BranchView, ExprView, LitView, NodeView, Op2};
use crate::matcher::{lemma_unify_sound, literal_pairs, resolve, unify, unify_resolved, Unification};

verus! {

pub open spec fn bool_value(b: bool) -> ExprView {
    ExprView::Lit(LitView::Boolean(b))
}

/// The value of an expression, with names read from `env`; `None` where
/// evaluation gets stuck (an unbound name, a non-boolean condition).
pub open spec fn eval(e: ExprView, env: Map<Seq<char>, ExprView>) -> Option<ExprView>
    decreases e,
{
    match e {
        ExprView::Lit(l) => Some(ExprView::Lit(l)),
        ExprView::Var(n) => if env.contains_key(n) {
            Some(env[n])
        } else {
            None
        },
        ExprView::BinOp(op, a, b) => match (eval(*a, env), eval(*b, env)) {
            (Some(x), Some(y)) => match op {
                Op2::Eq => Some(bool_value(x == y)),
                Op2::And => match (x, y) {
                    (
                        ExprView::Lit(LitView::Boolean(p)),
                        ExprView::Lit(LitView::Boolean(q)),
                    ) => Some(bool_value(p && q)),
                    _ => None,
                },
            },
            _ => None,
        },
        ExprView::Unit => Some(ExprView::Unit),
        ExprView::Array(es) => match eval_all(es, env) {
            Some(vs) => Some(ExprView::Array(vs)),
            None => None,
        },
        ExprView::Block(ns) => eval_block(ns, env),
        ExprView::If(c, t, f) => match eval(*c, env) {
            Some(ExprView::Lit(LitView::Boolean(true))) => eval(*t, env),
            Some(ExprView::Lit(LitView::Boolean(false))) => match f {
                Some(f) => eval(*f, env),
                None => Some(ExprView::Unit),
            },
            _ => None,
        },
        ExprView::Tuple(es) => match eval_all(es, env) {
            Some(vs) => Some(ExprView::Tuple(vs)),
            None => None,
        },
        ExprView::Record(tag, fs) => match eval_fields(fs, env) {
            Some(vs) => Some(ExprView::Record(tag, vs)),
            None => None,
        },
    }
}

pub open spec fn eval_all(es: Seq<ExprView>, env: Map<Seq<char>, ExprView>) -> Option<Seq<ExprView>>
    decreases es,
{
    if es.len() == 0 {
        Some(seq![])
    } else {
        match (eval_all(es.drop_last(), env), eval(es.last(), env)) {
            (Some(vs), Some(v)) => Some(vs.push(v)),
            _ => None,
        }
    }
}

pub open spec fn eval_fields(fs: Seq<(Seq<char>, ExprView)>, env: Map<Seq<char>, ExprView>) -> Option<
    Seq<(Seq<char>, ExprView)>,
>
    decreases fs,
{
    if fs.len() == 0 {
        Some(seq![])
    } else {
        match (eval_fields(fs.drop_last(), env), eval(fs.last().1, env)) {
            (Some(vs), Some(v)) => Some(vs.push((fs.last().0, v))),
            _ => None,
        }
    }
}

/// The value of a block: each binding extends the environment of the nodes
/// after it; the block's value is that of its last node.
pub open spec fn eval_block(ns: Seq<NodeView>, env: Map<Seq<char>, ExprView>) -> Option<ExprView>
    decreases ns,
{
    if ns.len() == 0 {
        Some(ExprView::Unit)
    } else {
        match ns[0] {
            NodeView::Let(n, e, _) => match eval(e, env) {
                Some(v) => eval_block(ns.drop_first(), env.insert(n, v)),
                None => None,
            },
            _ => if ns.len() == 1 {
                eval_node(ns[0], env)
            } else {
                match eval_node(ns[0], env) {
                    Some(_) => eval_block(ns.drop_first(), env),
                    None => None,
                }
            },
        }
    }
}

/// The value of an expression node or a conditional node; the evaluator does
/// not run other nodes.
pub open spec fn eval_node(n: NodeView, env: Map<Seq<char>, ExprView>) -> Option<ExprView>
    decreases n,
{
    match n {
        NodeView::Expr(e) => eval(e, env),
        NodeView::If(c, t, f) => match eval(c, env) {
            Some(ExprView::Lit(LitView::Boolean(true))) => eval(t, env),
            Some(ExprView::Lit(LitView::Boolean(false))) => match f {
                Some(f) => eval(f, env),
                None => Some(ExprView::Unit),
            },
            _ => None,
        },
        _ => None,
    }
}

/// The environment after binding each name in turn to the value of its
/// expression, evaluated where the earlier names are already bound.
pub open spec fn bind_all(b: Seq<(Seq<char>, ExprView)>, env: Map<Seq<char>, ExprView>) -> Option<
    Map<Seq<char>, ExprView>,
>
    decreases b.len(),
{
    if b.len() == 0 {
        Some(env)
    } else {
        match eval(b[0].1, env) {
            Some(v) => bind_all(b.drop_first(), env.insert(b[0].0, v)),
            None => None,
        }
    }
}

/// The first branch, from `bs[0]` on, whose pattern matches the value `v`
/// gives the result: its expression, evaluated with the branch's bindings.
pub open spec fn eval_first(v: ExprView, bs: Seq<BranchView>, env: Map<Seq<char>, ExprView>) -> Option<
    ExprView,
>
    decreases bs.len(),
{
    if bs.len() == 0 {
        None
    } else {
        match branch_unify(v, bs[0], env) {
            Unification::Matched(_, b) => match bind_all(b, env) {
                Some(inner) => eval(bs[0].result, inner),
                None => None,
            },
            _ => eval_first(v, bs.drop_first(), env),
        }
    }
}

/// The value of a match construct: the scrutinee is evaluated, and the first
/// branch that matches its value gives the result.
pub open spec fn eval_match(primary: ExprView, bs: Seq<BranchView>, env: Map<Seq<char>, ExprView>) -> Option<
    ExprView,
> {
    match eval(primary, env) {
        Some(v) => eval_first(v, bs, env),
        None => None,
    }
}

/// Built from literals and operators alone: no name occurs in it.
pub open spec fn literal_formula(e: ExprView) -> bool
    decreases e,
{
    match e {
        ExprView::Lit(_) => true,
        ExprView::BinOp(_, a, b) => literal_formula(*a) && literal_formula(*b),
        _ => false,
    }
}

/// A guard built from obligations that pair literals with themselves is a
/// formula of literals that evaluates to `true` in every environment.
proof fn lemma_guard_true(q: Seq<(ExprView, ExprView)>, env: Map<Seq<char>, ExprView>)
    requires
        literal_pairs(q),
    ensures
        eval(guard_or_true(guard_of(q)), env) == Some(bool_value(true)),
        literal_formula(guard_or_true(guard_of(q))),
    decreases q.len(),
{
    if q.len() > 0 {
        let last = q.last();
        assert(q[q.len() - 1] == last);
        assert(last.0 == last.1 && last.0 is Lit);
        assert(eval(last.0, env) == Some(last.0));
        assert(eval(last.1, env) == Some(last.0));
        let test = ExprView::BinOp(Op2::Eq, Box::new(last.0), Box::new(last.1));
        assert(eval(test, env) == Some(bool_value(true)));
        assert(literal_formula(last.0));
        assert(literal_formula(test));
        assert(literal_pairs(q.drop_last())) by {
            assert forall|i: int| 0 <= i < q.drop_last().len() implies (#[trigger] q.drop_last()[i]).0
                == q.drop_last()[i].1 && q.drop_last()[i].0 is Lit by {
                assert(q.drop_last()[i] == q[i]);
            }
        }
        lemma_guard_true(q.drop_last(), env);
    }
}

/// Evaluating a branch body is binding its names in turn, then evaluating
/// its result.
proof fn lemma_body_binds(b: Seq<(Seq<char>, ExprView)>, result: ExprView, env: Map<Seq<char>, ExprView>)
    ensures
        eval_block(lets_of(b).push(NodeView::Expr(result)), env) == match bind_all(b, env) {
            Some(inner) => eval(result, inner),
            None => None,
        },
    decreases b.len(),
{
    let ns = lets_of(b).push(NodeView::Expr(result));
    if b.len() == 0 {
        assert(ns[0] == NodeView::Expr(result));
        assert(ns.len() == 1);
        assert(eval_node(NodeView::Expr(result), env) == eval(result, env));
    } else {
        assert(ns[0] == NodeView::Let(b[0].0, b[0].1, false));
        assert(ns.drop_first() =~= lets_of(b.drop_first()).push(NodeView::Expr(result)));
        if let Some(v) = eval(b[0].1, env) {
            lemma_body_binds(b.drop_first(), result, env.insert(b[0].0, v));
        }
    }
}

/// The chain of one or more arms is a conditional, or the plain body of a
/// lone unguarded arm.
proof fn lemma_chain_shape(arms: Seq<(Option<ExprView>, ExprView)>)
    requires
        arms.len() > 0,
    ensures
        chain(arms) is If || chain(arms) is Expr,
        arms.len() == 1 && arms[0].0 is None ==> chain(arms) == NodeView::Expr(arms[0].1),
        !(arms.len() == 1 && arms[0].0 is None) ==> (chain(arms) matches NodeView::If(g, t, _)
            && g == guard_or_true(arms[0].0) && t == arms[0].1),
    decreases arms.len(),
{
    if arms.len() > 1 {
        lemma_chain_shape(arms.drop_first());
    }
}

/// The chain puts the first branch's guard outermost with its body as the
/// then arm. Where that guard holds, the chain's value is the first body's,
/// whatever the later branches are.
pub proof fn lemma_first_branch_first(
    primary: ExprView,
    bs: Seq<BranchView>,
    env: Map<Seq<char>, ExprView>,
    eval_env: Map<Seq<char>, ExprView>,
)
    requires
        desugar_match_spec(primary, bs, env) is Ok,
    ensures
        ({
            let out = desugar_match_spec(primary, bs, env)->Ok_0;
            let first = arms_of(primary, bs, env)[0];
            &&& bs.len() == 1 && first.0 is None ==> out == NodeView::Expr(first.1)
            &&& !(bs.len() == 1 && first.0 is None) ==> (out matches NodeView::If(g, t, _) && g
                == guard_or_true(first.0) && t == first.1)
            &&& eval(guard_or_true(first.0), eval_env) == Some(bool_value(true)) ==> eval_node(
                out,
                eval_env,
            ) == eval(first.1, eval_env)
        }),
{
    let arms = arms_of(primary, bs, env);
    lemma_chain_shape(arms);
    if arms.len() == 1 && arms[0].0 is Some {
        assert(guard_or_true(arms[0].0) == arms[0].0->Some_0);
    }
}

/// Each branch's names are bound only at the head of its own body: every
/// guard is a formula of literals, in which no name occurs, and each body is
/// the branch's bindings followed by its result. Where the first guard is
/// false, the rest of the chain is evaluated in the very environment given.
pub proof fn lemma_bindings_scoped(
    primary: ExprView,
    bs: Seq<BranchView>,
    env: Map<Seq<char>, ExprView>,
    eval_env: Map<Seq<char>, ExprView>,
)
    requires
        desugar_match_spec(primary, bs, env) is Ok,
    ensures
        forall|i: int|
            0 <= i < bs.len() ==> {
                let arm = #[trigger] arms_of(primary, bs, env)[i];
                &&& literal_formula(guard_or_true(arm.0))
                &&& arm.1 == body_of(branch_unify(primary, bs[i], env)->Matched_1, bs[i].result)
            },
        bs.len() > 1 && eval(guard_or_true(arms_of(primary, bs, env)[0].0), eval_env) == Some(
            bool_value(false),
        ) ==> eval_node(desugar_match_spec(primary, bs, env)->Ok_0, eval_env) == eval_node(
            chain(arms_of(primary, bs, env).drop_first()),
            eval_env,
        ),
{
    let arms = arms_of(primary, bs, env);
    assert forall|i: int| 0 <= i < bs.len() implies {
        let arm = #[trigger] arms_of(primary, bs, env)[i];
        &&& literal_formula(guard_or_true(arm.0))
        &&& arm.1 == body_of(branch_unify(primary, bs[i], env)->Matched_1, bs[i].result)
    } by {
        assert(matched_before(primary, bs, env, bs.len() as int));
        assert(branch_unify(primary, bs[i], env) is Matched);
        let u = branch_unify(primary, bs[i], env);
        match bs[i].pattern {
            Some(p) => lemma_unify_sound(primary, p, env),
            None => {},
        }
        lemma_guard_true(u->Matched_0, eval_env);
    }
    if bs.len() > 1 {
        lemma_chain_shape(arms.drop_first());
    }
}

/// Round trip: the desugared chain evaluates, in the namespace it was built
/// with, to the value of the match construct.
///
/// Stated for a scrutinee whose value is exactly what one lookup gives it,
/// and is not itself a name: a literal, a name bound to a non-name, or a
/// tuple or record that evaluates to itself. This is narrower than every
/// well-formed input. It leaves out inputs on which the law fails: an unbound
/// scrutinee with a catch-all branch (the chain yields the branch's value, the
/// construct yields none), and a name bound to another name (the chain binds
/// the second name's entry unevaluated, the construct evaluates it). It also
/// leaves out some inputs on which the law holds, such as a tuple holding names
/// bound to values.
pub proof fn lemma_round_trip(primary: ExprView, bs: Seq<BranchView>, env: Map<Seq<char>, ExprView>)
    requires
        desugar_match_spec(primary, bs, env) is Ok,
        resolve(primary, env) matches Some(v) && eval(primary, env) == Some(v) && !(v is Var),
    ensures
        eval_node(desugar_match_spec(primary, bs, env)->Ok_0, env) == eval_match(primary, bs, env),
{
    let arms = arms_of(primary, bs, env);
    assert(matched_before(primary, bs, env, bs.len() as int));
    assert(branch_unify(primary, bs[0], env) is Matched);
    let u = branch_unify(primary, bs[0], env);
    match bs[0].pattern {
        Some(p) => lemma_unify_sound(primary, p, env),
        None => {},
    }
    let v = resolve(primary, env)->Some_0;
    match bs[0].pattern {
        Some(p) => {
            assert(unify(primary, p, env) == unify_resolved(v, p, env));
            assert(unify(v, p, env) == unify_resolved(v, p, env));
        },
        None => {},
    }
    assert(branch_unify(v, bs[0], env) == u);
    lemma_guard_true(u->Matched_0, env);
    lemma_first_branch_first(primary, bs, env, env);
    lemma_body_binds(u->Matched_1, bs[0].result, env);
}

} // verus!
