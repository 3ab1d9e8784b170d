//! Rewrites a `match` construct into a chain of conditionals: one arm per
//! branch, in source order, each guarded by the branch's obligations and
//! binding the branch's names in a block of its own.

use vstd::prelude::*;
use crate::language::{
    branches_view, copy_expression, BranchView, CodeBlock, Declaration, ExprView, Expression,
    Ident, IfExpression, LitView, Literal, MatchBranch, MatchScrutinee, MatchStatement, Node,
    NodeView, Op2, VariableDeclaration,
};
use crate::matcher::{
    binds_view, matcher, reqs_view, unify, MatchImplMap, MatchReqMap, Unification,
};
use crate::namespace::Namespace;

verus! {

broadcast use vstd::string::to_string_from_display_ensures_for_str;

/// What matching the scrutinee against one branch comes to; a catch-all
/// branch matches with no obligations and no bindings.
pub open spec fn branch_unify(
    primary: ExprView,
    b: BranchView,
    env: Map<Seq<char>, ExprView>,
) -> Unification {
    match b.pattern {
        None => Unification::Matched(seq![], seq![]),
        Some(p) => unify(primary, p, env),
    }
}

/// Every branch before position `i` matches.
pub open spec fn matched_before(
    primary: ExprView,
    bs: Seq<BranchView>,
    env: Map<Seq<char>, ExprView>,
    i: int,
) -> bool {
    forall|j: int| 0 <= j < i ==> #[trigger] branch_unify(primary, bs[j], env) is Matched
}

/// Branches are matched in order until one fails; none of those matched
/// meets a name that `env` leaves unbound.
pub open spec fn lookups_bound(
    primary: ExprView,
    bs: Seq<BranchView>,
    env: Map<Seq<char>, ExprView>,
) -> bool {
    forall|i: int|
        0 <= i < bs.len() && matched_before(primary, bs, env, i) ==> !(#[trigger] branch_unify(
            primary,
            bs[i],
            env,
        ) is Unbound)
}

/// The guard of a branch: its obligations as equality tests joined by a
/// left-leaning conjunction; none when there are no obligations.
pub open spec fn guard_of(q: Seq<(ExprView, ExprView)>) -> Option<ExprView>
    decreases q.len(),
{
    if q.len() == 0 {
        None
    } else {
        let test = ExprView::BinOp(Op2::Eq, Box::new(q.last().0), Box::new(q.last().1));
        match guard_of(q.drop_last()) {
            None => Some(test),
            Some(g) => Some(ExprView::BinOp(Op2::And, Box::new(g), Box::new(test))),
        }
    }
}

/// The local, immutable binding of each name, in order.
pub open spec fn lets_of(b: Seq<(Seq<char>, ExprView)>) -> Seq<NodeView> {
    Seq::new(b.len(), |i: int| NodeView::Let(b[i].0, b[i].1, false))
}

/// The body of a branch: its bindings, then its result.
pub open spec fn body_of(b: Seq<(Seq<char>, ExprView)>, result: ExprView) -> ExprView {
    ExprView::Block(lets_of(b).push(NodeView::Expr(result)))
}

/// The guard and body that a branch contributes to the chain.
pub open spec fn arm_of(primary: ExprView, b: BranchView, env: Map<Seq<char>, ExprView>) -> (
    Option<ExprView>,
    ExprView,
) {
    match branch_unify(primary, b, env) {
        Unification::Matched(q, bs) => (guard_of(q), body_of(bs, b.result)),
        _ => (None, ExprView::Unit),
    }
}

pub open spec fn arms_of(
    primary: ExprView,
    bs: Seq<BranchView>,
    env: Map<Seq<char>, ExprView>,
) -> Seq<(Option<ExprView>, ExprView)> {
    Seq::new(bs.len(), |i: int| arm_of(primary, bs[i], env))
}

pub open spec fn true_literal() -> ExprView {
    ExprView::Lit(LitView::Boolean(true))
}

/// A guard, with a missing one read as `true`.
pub open spec fn guard_or_true(g: Option<ExprView>) -> ExprView {
    match g {
        Some(g) => g,
        None => true_literal(),
    }
}

/// The conditional chain built from the arms, last arm innermost. A lone
/// unguarded arm is its plain body.
pub open spec fn chain(arms: Seq<(Option<ExprView>, ExprView)>) -> NodeView
    decreases arms.len(),
{
    if arms.len() <= 1 {
        match arms[0].0 {
            None => NodeView::Expr(arms[0].1),
            Some(g) => NodeView::If(g, arms[0].1, None),
        }
    } else {
        let guard = guard_or_true(arms[0].0);
        match chain(arms.drop_first()) {
            NodeView::If(p, l, r) => NodeView::If(
                guard,
                arms[0].1,
                Some(
                    ExprView::If(
                        Box::new(p),
                        Box::new(l),
                        match r {
                            Some(x) => Some(Box::new(x)),
                            None => None,
                        },
                    ),
                ),
            ),
            NodeView::Expr(e) => NodeView::If(guard, arms[0].1, Some(e)),
            other => other,
        }
    }
}

pub open spec fn incompatible_message() -> Seq<char> {
    "Incompatible match provided"@
}

pub open spec fn no_branches_message() -> Seq<char> {
    "Match without branches provided"@
}

/// Desugaring of a match construct: fails on an empty branch list, and when
/// any branch does not match; otherwise the chain of all branches' arms.
pub open spec fn desugar_match_spec(
    primary: ExprView,
    bs: Seq<BranchView>,
    env: Map<Seq<char>, ExprView>,
) -> Result<NodeView, Seq<char>> {
    if bs.len() == 0 {
        Err(no_branches_message())
    } else if !matched_before(primary, bs, env, bs.len() as int) {
        Err(incompatible_message())
    } else {
        Ok(chain(arms_of(primary, bs, env)))
    }
}

/// Desugaring of a node: a match construct is rewritten, any other node is kept.
pub open spec fn desugar_spec(n: NodeView, env: Map<Seq<char>, ExprView>) -> Result<
    NodeView,
    Seq<char>,
> {
    match n {
        NodeView::Match(primary, bs) => desugar_match_spec(primary, bs, env),
        other => Ok(other),
    }
}

/// What `desugar` may be called on: the lookups it makes succeed.
pub open spec fn desugar_ready(n: NodeView, env: Map<Seq<char>, ExprView>) -> bool {
    match n {
        NodeView::Match(primary, bs) => lookups_bound(primary, bs, env),
        _ => true,
    }
}

pub open spec fn result_view(r: Result<Node, String>) -> Result<NodeView, Seq<char>> {
    match r {
        Ok(n) => Ok(n@),
        Err(s) => Err(s@),
    }
}

pub open spec fn opt_view(g: Option<Expression>) -> Option<ExprView> {
    match g {
        Some(e) => Some(e@),
        None => None,
    }
}

pub open spec fn arms_view(s: Seq<(Option<Expression>, Expression)>) -> Seq<(Option<ExprView>, ExprView)> {
    Seq::new(s.len(), |i: int| (opt_view(s[i].0), s[i].1@))
}

/// Rewrites `node` if it is a match construct; returns any other node as it is.
pub fn desugar(node: Node, namespace: &Namespace) -> (r: Result<Node, String>)
    requires
        desugar_ready(node@, namespace@),
    ensures
        result_view(r) == desugar_spec(node@, namespace@),
{
    match node {
        Node::MatchStatement(MatchStatement { primary, branches }) => {
            desugar_match_statement(primary, branches, namespace)
        },
        node => Ok(node),
    }
}

/// The guard built from a branch's obligations.
fn guard_expression(q: &MatchReqMap) -> (r: Option<Expression>)
    ensures
        opt_view(r) == guard_of(reqs_view(q@)),
{
    let ghost qv = reqs_view(q@);
    let mut conditional: Option<Expression> = None;
    let mut i: usize = 0;
    proof {
        assert(qv.take(0) =~= seq![]);
    }
    while i < q.len()
        invariant
            i <= q@.len(),
            qv == reqs_view(q@),
            opt_view(conditional) == guard_of(qv.take(i as int)),
        decreases q@.len() - i,
    {
        proof {
            assert(qv.take(i + 1).drop_last() =~= qv.take(i as int));
        }
        let condition = Expression::BinOp {
            op2: Op2::Eq,
            left: Box::new(copy_expression(&q[i].0)),
            right: Box::new(copy_expression(&q[i].1)),
        };
        conditional = match conditional {
            None => Some(condition),
            Some(the_conditional) => Some(
                Expression::BinOp {
                    op2: Op2::And,
                    left: Box::new(the_conditional),
                    right: Box::new(condition),
                },
            ),
        };
        i += 1;
    }
    proof {
        assert(qv.take(i as int) =~= qv);
    }
    conditional
}

/// A block that binds each name of `b` in order, then yields `result`.
fn body_expression(b: &MatchImplMap, result: Expression) -> (r: Expression)
    ensures
        r@ == body_of(binds_view(b@), result@),
{
    let ghost bv = binds_view(b@);
    let mut code_block_stmts: Vec<Node> = Vec::new();
    let mut i: usize = 0;
    while i < b.len()
        invariant
            i <= b@.len(),
            bv == binds_view(b@),
            code_block_stmts@.len() == i,
            forall|j: int| 0 <= j < i ==> #[trigger] code_block_stmts@[j]@ == lets_of(bv)[j],
        decreases b@.len() - i,
    {
        code_block_stmts.push(
            Node::Declaration(
                Declaration::VariableDeclaration(
                    VariableDeclaration {
                        name: Ident { primary_name: b[i].0.clone() },
                        body: copy_expression(&b[i].1),
                        is_mutable: false,
                    },
                ),
            ),
        );
        i += 1;
    }
    let ghost lets = code_block_stmts@;
    code_block_stmts.push(Node::Expression(result));
    let r = Expression::CodeBlock { contents: CodeBlock { contents: code_block_stmts } };
    proof {
        let want = lets_of(bv).push(NodeView::Expr(result@));
        assert forall|j: int| 0 <= j < want.len() implies crate::language::nodes_view(
            code_block_stmts@,
        )[j] == want[j] by {
            assert(crate::language::nodes_view(code_block_stmts@)[j] == code_block_stmts@[j]@);
            if j < lets.len() {
                assert(code_block_stmts@[j] == lets[j]);
                assert(lets[j]@ == lets_of(bv)[j]);
            } else {
                assert(code_block_stmts@[j] == Node::Expression(result));
            }
        }
        assert(crate::language::nodes_view(code_block_stmts@) =~= want);
    }
    r
}

/// Wraps `acc`, the chain of later branches, as the else arm of a conditional
/// on `guard` whose then arm is `body`.
fn prepend_arm(guard: Option<Expression>, body: Expression, acc: Node) -> (r: Node)
    ensures
        ({
            let g = guard_or_true(opt_view(guard));
            r@ == match acc@ {
                NodeView::If(p, l, e) => NodeView::If(
                    g,
                    body@,
                    Some(
                        ExprView::If(
                            Box::new(p),
                            Box::new(l),
                            match e {
                                Some(x) => Some(Box::new(x)),
                                None => None,
                            },
                        ),
                    ),
                ),
                NodeView::Expr(e) => NodeView::If(g, body@, Some(e)),
                other => other,
            }
        }),
{
    let primary = match guard {
        Some(g) => g,
        None => Expression::Literal { value: Literal::Boolean(true) },
    };
    match acc {
        Node::IfExpression(IfExpression { primary: p, left, right }) => {
            let else_branch = match right {
                Some(x) => Some(Box::new(x)),
                None => None,
            };
            Node::IfExpression(
                IfExpression {
                    primary,
                    left: body,
                    right: Some(
                        Expression::IfExp {
                            condition: Box::new(p),
                            then_branch: Box::new(left),
                            else_branch,
                        },
                    ),
                },
            )
        },
        Node::Expression(e) => Node::IfExpression(
            IfExpression { primary, left: body, right: Some(e) },
        ),
        other => other,
    }
}

/// The arm of every branch, in order; `None` as soon as a branch does not match.
fn branch_arms(primary: &Expression, branches: &Vec<MatchBranch>, namespace: &Namespace) -> (r:
    Option<Vec<(Option<Expression>, Expression)>>)
    requires
        lookups_bound(primary@, branches_view(branches@), namespace@),
    ensures
        match r {
            Some(arms) => matched_before(
                primary@,
                branches_view(branches@),
                namespace@,
                branches@.len() as int,
            ) && arms_view(arms@) == arms_of(primary@, branches_view(branches@), namespace@),
            None => !matched_before(
                primary@,
                branches_view(branches@),
                namespace@,
                branches@.len() as int,
            ),
        },
{
    let ghost env = namespace@;
    let ghost bs = branches_view(branches@);
    let mut arms: Vec<(Option<Expression>, Expression)> = Vec::new();
    let mut i: usize = 0;
    while i < branches.len()
        invariant
            i <= branches@.len(),
            bs == branches_view(branches@),
            env == namespace@,
            lookups_bound(primary@, bs, env),
            matched_before(primary@, bs, env, i as int),
            arms@.len() == i,
            forall|j: int|
                0 <= j < i ==> #[trigger] arms_view(arms@)[j] == arm_of(primary@, bs[j], env),
        decreases branches@.len() - i,
    {
        let branch = &branches[i];
        assert(bs[i as int] == branch@);
        let matches = match &branch.condition {
            MatchScrutinee::CatchAll => {
                let q: MatchReqMap = Vec::new();
                let b: MatchImplMap = Vec::new();
                assert(reqs_view(q@) =~= seq![]);
                assert(binds_view(b@) =~= seq![]);
                Some((q, b))
            },
            MatchScrutinee::Scrutinee(scrutinee) => matcher(primary, scrutinee, namespace),
        };
        match matches {
            Some((match_req_map, match_impl_map)) => {
                let guard = guard_expression(&match_req_map);
                let body = body_expression(&match_impl_map, copy_expression(&branch.result));
                let ghost old_arms = arms@;
                arms.push((guard, body));
                proof {
                    assert forall|j: int| 0 <= j < i + 1 implies #[trigger] arms_view(arms@)[j]
                        == arm_of(primary@, bs[j], env) by {
                        if j < i {
                            assert(arms@[j] == old_arms[j]);
                            assert(arms_view(old_arms)[j] == arm_of(primary@, bs[j], env));
                        }
                    }
                    assert forall|j: int| 0 <= j < i + 1 implies #[trigger] branch_unify(
                        primary@,
                        bs[j],
                        env,
                    ) is Matched by {
                        if j < i {
                            assert(matched_before(primary@, bs, env, i as int));
                        }
                    }
                }
            },
            None => {
                proof {
                    assert(!(branch_unify(primary@, bs[i as int], env) is Matched));
                }
                return None;
            },
        }
        i += 1;
    }
    proof {
        assert(arms_view(arms@) =~= arms_of(primary@, bs, env));
    }
    Some(arms)
}

/// Folds the arms, from the last to the first, into one conditional chain.
fn assemble(arms: Vec<(Option<Expression>, Expression)>) -> (r: Node)
    requires
        arms@.len() > 0,
    ensures
        r@ == chain(arms_view(arms@)),
{
    let ghost all_arms = arms_view(arms@);
    let mut arms = arms;
    let ghost n = all_arms.len() as int;
    proof {
        assert(arms_view(arms@)[n - 1] == all_arms[n - 1]);
    }
    let (last_guard, last_body) = arms.pop().unwrap();
    let mut if_statement = match last_guard {
        None => Node::Expression(last_body),
        Some(conditional) => Node::IfExpression(
            IfExpression { primary: conditional, left: last_body, right: None },
        ),
    };
    proof {
        assert(all_arms.subrange(n - 1, n).len() == 1);
        assert(all_arms.subrange(n - 1, n)[0] == all_arms[n - 1]);
        assert forall|j: int| 0 <= j < arms@.len() implies #[trigger] arms_view(arms@)[j]
            == all_arms[j] by {
            assert(arms_view(arms@)[j] == (opt_view(arms@[j].0), arms@[j].1@));
        }
    }
    while arms.len() > 0
        invariant
            n == all_arms.len(),
            0 < n,
            arms@.len() < n,
            forall|j: int| 0 <= j < arms@.len() ==> #[trigger] arms_view(arms@)[j] == all_arms[j],
            if_statement@ == chain(all_arms.subrange(arms@.len() as int, n)),
        decreases arms@.len(),
    {
        let ghost k = arms@.len() - 1;
        let ghost before = arms@;
        proof {
            assert(arms_view(before)[k] == all_arms[k]);
        }
        let (guard, body) = arms.pop().unwrap();
        proof {
            let sub = all_arms.subrange(k, n);
            assert(sub.drop_first() =~= all_arms.subrange(k + 1, n));
            assert(sub[0] == all_arms[k]);
            assert forall|j: int| 0 <= j < arms@.len() implies #[trigger] arms_view(arms@)[j]
                == all_arms[j] by {
                assert(arms@[j] == before[j]);
                assert(arms_view(before)[j] == all_arms[j]);
            }
        }
        if_statement = prepend_arm(guard, body, if_statement);
    }
    proof {
        assert(all_arms.subrange(0, n) =~= all_arms);
    }
    if_statement
}

fn desugar_match_statement(
    primary: Expression,
    branches: Vec<MatchBranch>,
    namespace: &Namespace,
) -> (r: Result<Node, String>)
    requires
        lookups_bound(primary@, branches_view(branches@), namespace@),
    ensures
        result_view(r) == desugar_match_spec(primary@, branches_view(branches@), namespace@),
{
    if branches.len() == 0 {
        return Err("Match without branches provided".to_string());
    }
    match branch_arms(&primary, &branches, namespace) {
        Some(arms) => Ok(assemble(arms)),
        None => Err("Incompatible match provided".to_string()),
    }
}

} // verus!
