//! Structural matching of an expression against a pattern.
//!
//! A successful match yields the equality obligations that must hold at run
//! time (pairs of literals) and the bindings that the pattern introduces.

use vstd::prelude::*;
use crate::language::{
    copy_expression, copy_literal, exprs_view, field_pats_view, fields_view, pats_view, ExprView,
    Expression, Ident, LitView, Literal, PatView, Scrutinee, StructScrutineeField,
};
use crate::equality::literal_equal;
use crate::namespace::Namespace;

verus! {

/// Obligations: each pair must be equal at run time.
pub type MatchReqMap = Vec<(Expression, Expression)>;

/// Bindings: each name is bound to the expression beside it.
pub type MatchImplMap = Vec<(String, Expression)>;

/// What matching an expression against a pattern comes to.
pub enum Unification {
    Matched(Seq<(ExprView, ExprView)>, Seq<(Seq<char>, ExprView)>),
    Mismatch,
    /// a name had to be looked up and the namespace does not bind it
    Unbound,
}

/// One step of lookup: a name stands for what the namespace binds it to;
/// every other expression stands for itself.
pub open spec fn resolve(e: ExprView, env: Map<Seq<char>, ExprView>) -> Option<ExprView> {
    match e {
        ExprView::Var(n) => if env.contains_key(n) {
            Some(env[n])
        } else {
            None
        },
        _ => Some(e),
    }
}

/// Runs `next` after `first`: concatenates two matches, or keeps the first failure.
pub open spec fn then_unify(first: Unification, next: Unification) -> Unification {
    match first {
        Unification::Matched(q1, b1) => match next {
            Unification::Matched(q2, b2) => Unification::Matched(q1 + q2, b1 + b2),
            other => other,
        },
        other => other,
    }
}

/// Matches `e` against `p`, looking names up in `env` first.
pub open spec fn unify(e: ExprView, p: PatView, env: Map<Seq<char>, ExprView>) -> Unification
    decreases p, 1nat,
{
    match resolve(e, env) {
        None => Unification::Unbound,
        Some(r) => unify_resolved(r, p, env),
    }
}

/// Matches an expression that has already been looked up against `p`.
pub open spec fn unify_resolved(r: ExprView, p: PatView, env: Map<Seq<char>, ExprView>) -> Unification
    decreases p, 0nat,
{
    match p {
        PatView::Lit(l) => match r {
            ExprView::Lit(m) => if l == m {
                Unification::Matched(seq![(ExprView::Lit(l), ExprView::Lit(m))], seq![])
            } else {
                Unification::Mismatch
            },
            _ => Unification::Mismatch,
        },
        PatView::Var(n) => Unification::Matched(seq![], seq![(n, r)]),
        PatView::Tuple(ps) => match r {
            ExprView::Tuple(es) => if es.len() == ps.len() {
                unify_all(es, ps, env)
            } else {
                Unification::Mismatch
            },
            _ => Unification::Mismatch,
        },
        PatView::Record(tag, ps) => match r {
            ExprView::Record(rtag, fs) => if rtag == tag {
                unify_fields(fs, ps, env)
            } else {
                Unification::Mismatch
            },
            _ => Unification::Mismatch,
        },
    }
}

/// Matches elements and patterns pairwise, left to right, stopping at the first failure.
pub open spec fn unify_all(es: Seq<ExprView>, ps: Seq<PatView>, env: Map<Seq<char>, ExprView>) -> Unification
    decreases ps, 0nat,
{
    if ps.len() == 0 || es.len() == 0 {
        Unification::Matched(seq![], seq![])
    } else {
        then_unify(
            unify_all(es.drop_last(), ps.drop_last(), env),
            unify(es.last(), ps.last(), env),
        )
    }
}

/// Matches record fields and field patterns by position, as far as both
/// reach. A field pattern that is a bare name must carry the field's own name
/// and binds the field's looked-up value.
///
/// Caution: field patterns are paired with fields by position, not by name.
/// Fields beyond the shorter of the two lists are dropped without a failure,
/// and a pattern written in another field order than the record's is
/// silently misaligned. Only a bare-name field pattern has its name checked.
pub open spec fn unify_fields(
    fs: Seq<(Seq<char>, ExprView)>,
    ps: Seq<PatView>,
    env: Map<Seq<char>, ExprView>,
) -> Unification
    decreases ps, 0nat,
{
    let n = if fs.len() < ps.len() {
        fs.len()
    } else {
        ps.len()
    };
    if n == 0 {
        Unification::Matched(seq![], seq![])
    } else {
        let f = fs[n - 1];
        let p = ps[n - 1];
        then_unify(
            unify_fields(fs.take(n - 1), ps.take(n - 1), env),
            match p {
                PatView::Var(name) => if f.0 == name {
                    match resolve(f.1, env) {
                        Some(v) => Unification::Matched(seq![], seq![(name, v)]),
                        None => Unification::Unbound,
                    }
                } else {
                    Unification::Mismatch
                },
                _ => unify(f.1, p, env),
            },
        )
    }
}

pub open spec fn reqs_view(q: Seq<(Expression, Expression)>) -> Seq<(ExprView, ExprView)> {
    Seq::new(q.len(), |i: int| (q[i].0@, q[i].1@))
}

pub open spec fn binds_view(b: Seq<(String, Expression)>) -> Seq<(Seq<char>, ExprView)> {
    Seq::new(b.len(), |i: int| (b[i].0@, b[i].1@))
}

/// The outcome that a result of `matcher` stands for.
pub open spec fn outcome(r: Option<(MatchReqMap, MatchImplMap)>) -> Unification {
    match r {
        Some((q, b)) => Unification::Matched(reqs_view(q@), binds_view(b@)),
        None => Unification::Mismatch,
    }
}

proof fn lemma_all_prefix(es: Seq<ExprView>, ps: Seq<PatView>, env: Map<Seq<char>, ExprView>, k: int)
    requires
        es.len() == ps.len(),
        0 <= k <= ps.len(),
        !(unify_all(es.take(k), ps.take(k), env) is Matched),
    ensures
        unify_all(es, ps, env) == unify_all(es.take(k), ps.take(k), env),
    decreases ps.len(),
{
    if k == ps.len() {
        assert(es.take(k) =~= es);
        assert(ps.take(k) =~= ps);
    } else {
        assert(es.drop_last().take(k) =~= es.take(k));
        assert(ps.drop_last().take(k) =~= ps.take(k));
        lemma_all_prefix(es.drop_last(), ps.drop_last(), env, k);
    }
}

proof fn lemma_fields_prefix(
    fs: Seq<(Seq<char>, ExprView)>,
    ps: Seq<PatView>,
    env: Map<Seq<char>, ExprView>,
    k: int,
)
    requires
        0 <= k <= fs.len(),
        k <= ps.len(),
        !(unify_fields(fs.take(k), ps.take(k), env) is Matched),
    ensures
        unify_fields(fs, ps, env) == unify_fields(fs.take(k), ps.take(k), env),
    decreases ps.len(),
{
    let n = if fs.len() < ps.len() {
        fs.len()
    } else {
        ps.len()
    };
    if k == n {
        if n > 0 {
            assert(fs.take(k).take(n - 1) =~= fs.take(n - 1));
            assert(ps.take(k).take(n - 1) =~= ps.take(n - 1));
        }
    } else {
        assert(fs.take(n - 1).take(k) =~= fs.take(k));
        assert(ps.take(n - 1).take(k) =~= ps.take(k));
        lemma_fields_prefix(fs.take(n - 1), ps.take(n - 1), env, k);
    }
}

/// Looks `exp` up in the namespace, one step deep.
fn eval_exp(exp: &Expression, namespace: &Namespace) -> (r: Expression)
    requires
        resolve(exp@, namespace@) is Some,
    ensures
        resolve(exp@, namespace@) == Some(r@),
{
    match exp {
        Expression::VariableExpression { name } => match namespace.get(&name.primary_name) {
            Some(e) => copy_expression(e),
            None => copy_expression(exp),
        },
        _ => copy_expression(exp),
    }
}

/// Matches `exp` against `scrutinee`, looking names in `exp` up in `namespace`.
pub fn matcher(exp: &Expression, scrutinee: &Scrutinee, namespace: &Namespace) -> (r: Option<
    (MatchReqMap, MatchImplMap),
>)
    requires
        !(unify(exp@, scrutinee@, namespace@) is Unbound),
    ensures
        outcome(r) == unify(exp@, scrutinee@, namespace@),
    decreases scrutinee, 1nat,
{
    let ghost looked_up = exp@;
    let exp = eval_exp(exp, namespace);
    match scrutinee {
        Scrutinee::Literal { value } => {
            let r = match_literal(&exp, value);
            assert(unify(looked_up, scrutinee@, namespace@) == unify_resolved(
                exp@,
                PatView::Lit(value@),
                namespace@,
            ));
            r
        },
        Scrutinee::VariableExpression { name } => {
            let match_req_map: MatchReqMap = Vec::new();
            let match_impl_map: MatchImplMap = vec![(name.primary_name.clone(), exp)];
            proof {
                assert(reqs_view(match_req_map@) =~= seq![]);
                assert(binds_view(match_impl_map@) =~= seq![(name@, exp@)]);
            }
            Some((match_req_map, match_impl_map))
        },
        Scrutinee::Tuple { elems } => match_tuple(&exp, elems, namespace),
        Scrutinee::StructScrutinee { struct_name, fields } => match_struct(
            &exp,
            struct_name,
            fields,
            namespace,
        ),
    }
}

fn match_literal(exp: &Expression, n: &Literal) -> (r: Option<(MatchReqMap, MatchImplMap)>)
    ensures
        forall|env: Map<Seq<char>, ExprView>|
            outcome(r) == #[trigger] unify_resolved(exp@, PatView::Lit(n@), env),
{
    match exp {
        Expression::Literal { value: m } => {
            if literal_equal(n, m) {
                let match_req_map: MatchReqMap = vec![
                    (
                        Expression::Literal { value: copy_literal(n) },
                        Expression::Literal { value: copy_literal(m) },
                    ),
                ];
                let match_impl_map: MatchImplMap = Vec::new();
                proof {
                    assert(reqs_view(match_req_map@) =~= seq![
                        (ExprView::Lit(n@), ExprView::Lit(m@)),
                    ]);
                    assert(binds_view(match_impl_map@) =~= seq![]);
                }
                Some((match_req_map, match_impl_map))
            } else {
                None
            }
        },
        _ => None,
    }
}

fn match_tuple(exp: &Expression, scrutinee_elems: &Vec<Scrutinee>, namespace: &Namespace) -> (r:
    Option<(MatchReqMap, MatchImplMap)>)
    requires
        !(unify_resolved(exp@, PatView::Tuple(pats_view(scrutinee_elems@)), namespace@) is Unbound),
    ensures
        outcome(r) == unify_resolved(exp@, PatView::Tuple(pats_view(scrutinee_elems@)), namespace@),
    decreases scrutinee_elems, 0nat,
{
    let ghost env = namespace@;
    let ghost ps = pats_view(scrutinee_elems@);
    match exp {
        Expression::Tuple { elems } => {
            let ghost es = exprs_view(elems@);
            assert(exp@ == ExprView::Tuple(es));
            if elems.len() != scrutinee_elems.len() {
                return None;
            }
            let mut match_req_maps: MatchReqMap = Vec::new();
            let mut match_impl_maps: MatchImplMap = Vec::new();
            let mut i: usize = 0;
            proof {
                assert(reqs_view(match_req_maps@) =~= seq![]);
                assert(binds_view(match_impl_maps@) =~= seq![]);
            }
            while i < elems.len()
                invariant
                    i <= elems@.len() == scrutinee_elems@.len(),
                    es == exprs_view(elems@),
                    exp@ == ExprView::Tuple(es),
                    ps == pats_view(scrutinee_elems@),
                    env == namespace@,
                    !(unify_all(es, ps, env) is Unbound),
                    unify_all(es.take(i as int), ps.take(i as int), env) == Unification::Matched(
                        reqs_view(match_req_maps@),
                        binds_view(match_impl_maps@),
                    ),
                decreases elems@.len() - i,
            {
                let ghost k = i as int;
                proof {
                    assert(es.take(k + 1).drop_last() =~= es.take(k));
                    assert(ps.take(k + 1).drop_last() =~= ps.take(k));
                    assert(es.take(k + 1).last() == es[k]);
                    assert(ps.take(k + 1).last() == ps[k]);
                    if unify(es[k], ps[k], env) is Unbound {
                        lemma_all_prefix(es, ps, env, k + 1);
                    }
                    assert(decreases_to!(scrutinee_elems => scrutinee_elems[k]));
                }
                match matcher(&elems[i], &scrutinee_elems[i], namespace) {
                    Some((mut match_req_map, mut match_impl_map)) => {
                        let ghost q0 = match_req_maps@;
                        let ghost b0 = match_impl_maps@;
                        let ghost q1 = match_req_map@;
                        let ghost b1 = match_impl_map@;
                        match_req_maps.append(&mut match_req_map);
                        match_impl_maps.append(&mut match_impl_map);
                        proof {
                            assert(reqs_view(match_req_maps@) =~= reqs_view(q0) + reqs_view(q1));
                            assert(binds_view(match_impl_maps@) =~= binds_view(b0) + binds_view(b1));
                        }
                    },
                    None => {
                        proof {
                            assert(es[k] == elems@[k]@);
                            assert(ps[k] == scrutinee_elems@[k]@);
                            lemma_all_prefix(es, ps, env, k + 1);
                        }
                        return None;
                    },
                }
                i += 1;
            }
            proof {
                assert(es.take(i as int) =~= es);
                assert(ps.take(i as int) =~= ps);
            }
            Some((match_req_maps, match_impl_maps))
        },
        _ => None,
    }
}

fn match_struct(
    exp: &Expression,
    scrutinee_struct_name: &Ident,
    scrutinee_fields: &Vec<StructScrutineeField>,
    namespace: &Namespace,
) -> (r: Option<(MatchReqMap, MatchImplMap)>)
    requires
        !(unify_resolved(
            exp@,
            PatView::Record(scrutinee_struct_name@, field_pats_view(scrutinee_fields@)),
            namespace@,
        ) is Unbound),
    ensures
        outcome(r) == unify_resolved(
            exp@,
            PatView::Record(scrutinee_struct_name@, field_pats_view(scrutinee_fields@)),
            namespace@,
        ),
    decreases scrutinee_fields, 0nat,
{
    let ghost env = namespace@;
    let ghost ps = field_pats_view(scrutinee_fields@);
    match exp {
        Expression::StructExpression { struct_name, fields } => {
            let ghost fs = fields_view(fields@);
            assert(exp@ == ExprView::Record(struct_name@, fs));
            if struct_name.primary_name != scrutinee_struct_name.primary_name {
                return None;
            }
            let n: usize = if fields.len() < scrutinee_fields.len() {
                fields.len()
            } else {
                scrutinee_fields.len()
            };
            proof {
                if n > 0 {
                    assert(fs.take(n as int).take(n - 1) =~= fs.take(n - 1));
                    assert(ps.take(n as int).take(n - 1) =~= ps.take(n - 1));
                }
                assert(unify_fields(fs, ps, env) == unify_fields(
                    fs.take(n as int),
                    ps.take(n as int),
                    env,
                ));
            }
            let mut match_req_maps: MatchReqMap = Vec::new();
            let mut match_impl_maps: MatchImplMap = Vec::new();
            let mut i: usize = 0;
            proof {
                assert(reqs_view(match_req_maps@) =~= seq![]);
                assert(binds_view(match_impl_maps@) =~= seq![]);
            }
            while i < n
                invariant
                    i <= n <= fields@.len(),
                    n <= scrutinee_fields@.len(),
                    fs == fields_view(fields@),
                    exp@ == ExprView::Record(scrutinee_struct_name@, fs),
                    ps == field_pats_view(scrutinee_fields@),
                    env == namespace@,
                    !(unify_fields(fs, ps, env) is Unbound),
                    unify_fields(fs, ps, env) == unify_fields(fs.take(n as int), ps.take(n as int), env),
                    unify_fields(fs.take(i as int), ps.take(i as int), env) == Unification::Matched(
                        reqs_view(match_req_maps@),
                        binds_view(match_impl_maps@),
                    ),
                decreases n - i,
            {
                let ghost k = i as int;
                let ghost step = match ps[k] {
                    PatView::Var(name) => if fs[k].0 == name {
                        match resolve(fs[k].1, env) {
                            Some(v) => Unification::Matched(seq![], seq![(name, v)]),
                            None => Unification::Unbound,
                        }
                    } else {
                        Unification::Mismatch
                    },
                    _ => unify(fs[k].1, ps[k], env),
                };
                proof {
                    assert(fs.take(k + 1).take(k) =~= fs.take(k));
                    assert(ps.take(k + 1).take(k) =~= ps.take(k));
                    assert(unify_fields(fs.take(k + 1), ps.take(k + 1), env) == then_unify(
                        unify_fields(fs.take(k), ps.take(k), env),
                        step,
                    ));
                    if !(unify_fields(fs.take(k + 1), ps.take(k + 1), env) is Matched) {
                        lemma_fields_prefix(fs.take(n as int), ps.take(n as int), env, k + 1);
                        assert(fs.take(n as int).take(k + 1) =~= fs.take(k + 1));
                        assert(ps.take(n as int).take(k + 1) =~= ps.take(k + 1));
                    }
                    assert(decreases_to!(scrutinee_fields => scrutinee_fields[k]));
                }
                let field = &fields[i];
                let scrutinee = &scrutinee_fields[i].scrutinee;
                assert(fs[k] == (field.name@, field.value@));
                assert(ps[k] == scrutinee@);
                match scrutinee {
                    // a bare name must name the field itself
                    Scrutinee::VariableExpression { name } => {
                        if field.name.primary_name != name.primary_name {
                            return None;
                        }
                        let value = eval_exp(&field.value, namespace);
                        let ghost b0 = match_impl_maps@;
                        match_impl_maps.push((name.primary_name.clone(), value));
                        proof {
                            assert(binds_view(match_impl_maps@) =~= binds_view(b0) + seq![
                                (name@, value@),
                            ]);
                            assert(reqs_view(match_req_maps@) =~= reqs_view(match_req_maps@)
                                + seq![]);
                        }
                    },
                    // any other pattern is matched against the field's value
                    _ => match matcher(&field.value, scrutinee, namespace) {
                        Some((mut match_req_map, mut match_impl_map)) => {
                            let ghost q0 = match_req_maps@;
                            let ghost b0 = match_impl_maps@;
                            let ghost q1 = match_req_map@;
                            let ghost b1 = match_impl_map@;
                            match_req_maps.append(&mut match_req_map);
                            match_impl_maps.append(&mut match_impl_map);
                            proof {
                                assert(reqs_view(match_req_maps@) =~= reqs_view(q0) + reqs_view(
                                    q1,
                                ));
                                assert(binds_view(match_impl_maps@) =~= binds_view(b0)
                                    + binds_view(b1));
                            }
                        },
                        None => return None,
                    },
                }
                i += 1;
            }
            Some((match_req_maps, match_impl_maps))
        },
        _ => None,
    }
}

// ---------------------------------------------------------------------------
// Laws of matching
// ---------------------------------------------------------------------------

/// A literal expression matches a literal pattern exactly when the two
/// literals are equal; the match binds nothing and owes one obligation, the
/// pattern's literal against the expression's.
pub proof fn lemma_literal_equality(l: LitView, p: LitView, env: Map<Seq<char>, ExprView>)
    ensures
        l == p ==> unify(ExprView::Lit(l), PatView::Lit(p), env) == Unification::Matched(
            seq![(ExprView::Lit(p), ExprView::Lit(l))],
            seq![],
        ),
        l != p ==> unify(ExprView::Lit(l), PatView::Lit(p), env) == Unification::Mismatch,
{
}

/// A bare name as pattern matches every expression whose lookup succeeds: no
/// obligation, and one binding of the name to the looked-up expression.
pub proof fn lemma_variable_capture(e: ExprView, n: Seq<char>, env: Map<Seq<char>, ExprView>)
    requires
        resolve(e, env) is Some,
    ensures
        unify(e, PatView::Var(n), env) == Unification::Matched(
            seq![],
            seq![(n, resolve(e, env)->Some_0)],
        ),
{
}

/// A tuple never matches a tuple pattern of another length, whatever the
/// elements are.
pub proof fn lemma_tuple_arity(e: ExprView, ps: Seq<PatView>, env: Map<Seq<char>, ExprView>)
    requires
        resolve(e, env) matches Some(ExprView::Tuple(es)) && es.len() != ps.len(),
    ensures
        unify(e, PatView::Tuple(ps), env) == Unification::Mismatch,
{
}

/// Every obligation pairs a literal with itself.
pub open spec fn literal_pairs(q: Seq<(ExprView, ExprView)>) -> bool {
    forall|i: int| 0 <= i < q.len() ==> (#[trigger] q[i]).0 == q[i].1 && q[i].0 is Lit
}

/// A match, if there is one, owes only obligations that pair a literal with itself.
pub open spec fn sound(u: Unification) -> bool {
    u is Matched ==> literal_pairs(u->Matched_0)
}

proof fn lemma_then_sound(a: Unification, b: Unification)
    requires
        sound(a),
        sound(b),
    ensures
        sound(then_unify(a, b)),
{
    if a is Matched && b is Matched {
        let q = a->Matched_0 + b->Matched_0;
        assert forall|i: int| 0 <= i < q.len() implies (#[trigger] q[i]).0 == q[i].1
            && q[i].0 is Lit by {
            if i < a->Matched_0.len() {
                assert(q[i] == a->Matched_0[i]);
            } else {
                assert(q[i] == b->Matched_0[i - a->Matched_0.len()]);
            }
        }
    }
}

pub proof fn lemma_unify_sound(e: ExprView, p: PatView, env: Map<Seq<char>, ExprView>)
    ensures
        sound(unify(e, p, env)),
    decreases p, 1nat,
{
    if let Some(r) = resolve(e, env) {
        lemma_resolved_sound(r, p, env);
    }
}

proof fn lemma_resolved_sound(r: ExprView, p: PatView, env: Map<Seq<char>, ExprView>)
    ensures
        sound(unify_resolved(r, p, env)),
    decreases p, 0nat,
{
    match p {
        PatView::Lit(l) => {
            if let ExprView::Lit(m) = r {
                if l == m {
                    let q = seq![(ExprView::Lit(l), ExprView::Lit(m))];
                    assert(q[0] == (ExprView::Lit(l), ExprView::Lit(m)));
                }
            }
        },
        PatView::Var(_) => {},
        PatView::Tuple(ps) => {
            if let ExprView::Tuple(es) = r {
                lemma_all_sound(es, ps, env);
            }
        },
        PatView::Record(_, ps) => {
            if let ExprView::Record(_, fs) = r {
                lemma_fields_sound(fs, ps, env);
            }
        },
    }
}

proof fn lemma_all_sound(es: Seq<ExprView>, ps: Seq<PatView>, env: Map<Seq<char>, ExprView>)
    ensures
        sound(unify_all(es, ps, env)),
    decreases ps, 0nat,
{
    if ps.len() != 0 && es.len() != 0 {
        lemma_all_sound(es.drop_last(), ps.drop_last(), env);
        lemma_unify_sound(es.last(), ps.last(), env);
        lemma_then_sound(
            unify_all(es.drop_last(), ps.drop_last(), env),
            unify(es.last(), ps.last(), env),
        );
    }
}

proof fn lemma_fields_sound(
    fs: Seq<(Seq<char>, ExprView)>,
    ps: Seq<PatView>,
    env: Map<Seq<char>, ExprView>,
)
    ensures
        sound(unify_fields(fs, ps, env)),
    decreases ps, 0nat,
{
    let n = if fs.len() < ps.len() {
        fs.len()
    } else {
        ps.len()
    };
    if n != 0 {
        let f = fs[n - 1];
        let p = ps[n - 1];
        lemma_fields_sound(fs.take(n - 1), ps.take(n - 1), env);
        let step = match p {
            PatView::Var(name) => if f.0 == name {
                match resolve(f.1, env) {
                    Some(v) => Unification::Matched(seq![], seq![(name, v)]),
                    None => Unification::Unbound,
                }
            } else {
                Unification::Mismatch
            },
            _ => unify(f.1, p, env),
        };
        if !(p is Var) {
            lemma_unify_sound(f.1, p, env);
        }
        lemma_then_sound(unify_fields(fs.take(n - 1), ps.take(n - 1), env), step);
    }
}

} // verus!
