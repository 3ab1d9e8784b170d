//! Rendering syntax trees as text.

use vstd::prelude::*;
use vstd::string::StringExecFns;
use crate::language::{
    BranchView, Declaration, ExprView, Expression, LitView, Literal, MatchBranch, MatchScrutinee,
    Node, NodeView, Op2, PatView, Reassignment, Scrutinee, StructExpressionField,
    Tree, VariableDeclaration, node_view,
};

verus! {

pub open spec fn digit_text(d: nat) -> Seq<char> {
    if d == 0 {
        "0"@
    } else if d == 1 {
        "1"@
    } else if d == 2 {
        "2"@
    } else if d == 3 {
        "3"@
    } else if d == 4 {
        "4"@
    } else if d == 5 {
        "5"@
    } else if d == 6 {
        "6"@
    } else if d == 7 {
        "7"@
    } else if d == 8 {
        "8"@
    } else {
        "9"@
    }
}

/// The decimal digits of `n`, most significant first.
pub open spec fn decimal(n: nat) -> Seq<char>
    decreases n,
{
    if n < 10 {
        digit_text(n)
    } else {
        decimal(n / 10) + digit_text(n % 10)
    }
}

/// The parts, with `sep` between each two.
pub open spec fn join(parts: Seq<Seq<char>>, sep: Seq<char>) -> Seq<char>
    decreases parts.len(),
{
    if parts.len() == 0 {
        Seq::empty()
    } else if parts.len() == 1 {
        parts[0]
    } else {
        join(parts.drop_last(), sep) + sep + parts.last()
    }
}

pub open spec fn lit_text(l: LitView) -> Seq<char> {
    match l {
        LitView::U8(n) => decimal(n as nat),
        LitView::U16(n) => decimal(n as nat),
        LitView::U32(n) => decimal(n as nat),
        LitView::U64(n) => decimal(n as nat),
        LitView::Str(s) => s,
        LitView::Boolean(b) => if b {
            "true"@
        } else {
            "false"@
        },
        LitView::Byte(n) => decimal(n as nat),
    }
}

pub open spec fn op_text(op: Op2) -> Seq<char> {
    match op {
        Op2::And => " && "@,
        Op2::Eq => " == "@,
    }
}

pub open spec fn expr_text(e: ExprView) -> Seq<char>
    decreases e,
{
    match e {
        ExprView::Lit(l) => lit_text(l),
        ExprView::Var(n) => n,
        ExprView::BinOp(op, a, b) => "("@ + expr_text(*a) + op_text(op) + expr_text(*b) + ")"@,
        ExprView::Unit => "()"@,
        ExprView::Array(es) => "["@ + join(exprs_text(es), ", "@) + "]"@,
        ExprView::Block(ns) => "{ "@ + join(nodes_text(ns), "; "@) + " }"@,
        ExprView::If(c, t, f) => "if "@ + expr_text(*c) + " "@ + expr_text(*t) + match f {
            Some(f) => " else "@ + expr_text(*f),
            None => Seq::empty(),
        },
        ExprView::Tuple(es) => "("@ + join(exprs_text(es), ", "@) + ")"@,
        ExprView::Record(tag, fs) => tag + " { "@ + join(fields_text(fs), ", "@) + " }"@,
    }
}

pub open spec fn exprs_text(es: Seq<ExprView>) -> Seq<Seq<char>>
    decreases es,
{
    Seq::new(
        es.len(),
        |i: int|
            if 0 <= i < es.len() {
                expr_text(es[i])
            } else {
                Seq::empty()
            },
    )
}

pub open spec fn fields_text(fs: Seq<(Seq<char>, ExprView)>) -> Seq<Seq<char>>
    decreases fs,
{
    Seq::new(
        fs.len(),
        |i: int|
            if 0 <= i < fs.len() {
                fs[i].0 + ": "@ + expr_text(fs[i].1)
            } else {
                Seq::empty()
            },
    )
}

pub open spec fn pat_text(p: PatView) -> Seq<char>
    decreases p,
{
    match p {
        PatView::Lit(l) => lit_text(l),
        PatView::Var(n) => n,
        PatView::Tuple(ps) => "("@ + join(pats_text(ps), ", "@) + ")"@,
        PatView::Record(tag, ps) => tag + " { "@ + join(pats_text(ps), ", "@) + " }"@,
    }
}

pub open spec fn pats_text(ps: Seq<PatView>) -> Seq<Seq<char>>
    decreases ps,
{
    Seq::new(
        ps.len(),
        |i: int|
            if 0 <= i < ps.len() {
                pat_text(ps[i])
            } else {
                Seq::empty()
            },
    )
}

/// A catch-all branch is written `_`.
pub open spec fn branch_text(b: BranchView) -> Seq<char>
    decreases b,
{
    let head = match b.pattern {
        Some(p) => pat_text(p),
        None => "_"@,
    };
    head + " => "@ + expr_text(b.result)
}

pub open spec fn node_text(n: NodeView) -> Seq<char>
    decreases n,
{
    match n {
        NodeView::Let(name, e, m) => "let "@ + (if m {
            "mut "@
        } else {
            Seq::empty()
        }) + name + " = "@ + expr_text(e),
        NodeView::Assign(l, r) => expr_text(l) + " = "@ + expr_text(r),
        NodeView::Expr(e) => expr_text(e),
        NodeView::While(c, ns) => "while "@ + expr_text(c) + " { "@ + join(nodes_text(ns), "; "@)
            + " }"@,
        NodeView::Return(e) => "return "@ + expr_text(e),
        NodeView::Match(p, bs) => "match "@ + expr_text(p) + " { "@ + join(
            branches_text(bs),
            ", "@,
        ) + " }"@,
        NodeView::If(c, t, f) => "if "@ + expr_text(c) + " "@ + expr_text(t) + match f {
            Some(f) => " else "@ + expr_text(f),
            None => Seq::empty(),
        },
    }
}

pub open spec fn nodes_text(ns: Seq<NodeView>) -> Seq<Seq<char>>
    decreases ns,
{
    Seq::new(
        ns.len(),
        |i: int|
            if 0 <= i < ns.len() {
                node_text(ns[i])
            } else {
                Seq::empty()
            },
    )
}

pub open spec fn branches_text(bs: Seq<BranchView>) -> Seq<Seq<char>>
    decreases bs,
{
    Seq::new(
        bs.len(),
        |i: int|
            if 0 <= i < bs.len() {
                branch_text(bs[i])
            } else {
                Seq::empty()
            },
    )
}

/// Each node on a line of its own, ended by `;`.
pub open spec fn tree_text(ns: Seq<NodeView>) -> Seq<char>
    decreases ns.len(),
{
    if ns.len() == 0 {
        Seq::empty()
    } else {
        tree_text(ns.drop_last()) + node_text(ns.last()) + ";\n"@
    }
}

fn digit_str(d: u64) -> (r: &'static str)
    requires
        d < 10,
    ensures
        r@ == digit_text(d as nat),
{
    if d == 0 {
        "0"
    } else if d == 1 {
        "1"
    } else if d == 2 {
        "2"
    } else if d == 3 {
        "3"
    } else if d == 4 {
        "4"
    } else if d == 5 {
        "5"
    } else if d == 6 {
        "6"
    } else if d == 7 {
        "7"
    } else if d == 8 {
        "8"
    } else {
        "9"
    }
}

pub fn decimal_string(n: u64) -> (r: String)
    ensures
        r@ == decimal(n as nat),
    decreases n,
{
    if n < 10 {
        String::from_str(digit_str(n))
    } else {
        let mut s = decimal_string(n / 10);
        s.append(digit_str(n % 10));
        s
    }
}

/// Appends `sep` unless `s` is the first part.
fn append_separator(s: &mut String, first: bool, sep: &str)
    ensures
        final(s)@ == if first {
            old(s)@
        } else {
            old(s)@ + sep@
        },
{
    if !first {
        s.append(sep);
    }
}

proof fn lemma_join_step(parts: Seq<Seq<char>>, sep: Seq<char>, i: int)
    requires
        0 <= i < parts.len(),
    ensures
        join(parts.take(i + 1), sep) == if i == 0 {
            parts[0]
        } else {
            join(parts.take(i), sep) + sep + parts[i]
        },
{
    assert(parts.take(i + 1).drop_last() =~= parts.take(i));
    if i == 0 {
        assert(parts.take(0) =~= Seq::<Seq<char>>::empty());
    }
}

impl Literal {
    /// The literal as written: digits, the string's own characters, `true` or `false`.
    pub fn text(&self) -> (r: String)
        ensures
            r@ == lit_text(self@),
    {
        match self {
            Literal::U8(n) => decimal_string(*n as u64),
            Literal::U16(n) => decimal_string(*n as u64),
            Literal::U32(n) => decimal_string(*n as u64),
            Literal::U64(n) => decimal_string(*n),
            Literal::String(s) => s.clone(),
            Literal::Boolean(b) => if *b {
                String::from_str("true")
            } else {
                String::from_str("false")
            },
            Literal::Byte(n) => decimal_string(*n as u64),
        }
    }
}

impl Expression {
    pub fn text(&self) -> (r: String)
        ensures
            r@ == expr_text(self@),
        decreases self,
    {
        match self {
            Expression::Literal { value } => value.text(),
            Expression::VariableExpression { name } => name.primary_name.clone(),
            Expression::BinOp { op2, left, right } => {
                let mut s = String::from_str("(");
                let l = left.text();
                s.append(l.as_str());
                match op2 {
                    Op2::And => s.append(" && "),
                    Op2::Eq => s.append(" == "),
                }
                let r = right.text();
                s.append(r.as_str());
                s.append(")");
                s
            },
            Expression::Unit {  } => String::from_str("()"),
            Expression::Array { contents } => {
                let mut s = String::from_str("[");
                let inner = expressions_text(contents);
                s.append(inner.as_str());
                s.append("]");
                s
            },
            Expression::CodeBlock { contents } => {
                let mut s = String::from_str("{ ");
                let inner = nodes_text_of(&contents.contents);
                s.append(inner.as_str());
                s.append(" }");
                s
            },
            Expression::IfExp { condition, then_branch, else_branch } => {
                let mut s = String::from_str("if ");
                let c = condition.text();
                s.append(c.as_str());
                s.append(" ");
                let t = then_branch.text();
                s.append(t.as_str());
                match else_branch {
                    Some(f) => {
                        s.append(" else ");
                        let f = f.text();
                        s.append(f.as_str());
                    },
                    None => {},
                }
                s
            },
            Expression::Tuple { elems } => {
                let mut s = String::from_str("(");
                let inner = expressions_text(elems);
                s.append(inner.as_str());
                s.append(")");
                s
            },
            Expression::StructExpression { struct_name, fields } => {
                let mut s = struct_name.primary_name.clone();
                s.append(" { ");
                let inner = fields_text_of(fields);
                s.append(inner.as_str());
                s.append(" }");
                s
            },
        }
    }
}

fn expressions_text(es: &Vec<Expression>) -> (r: String)
    ensures
        r@ == join(exprs_text(crate::language::exprs_view(es@)), ", "@),
    decreases es,
{
    let ghost parts = exprs_text(crate::language::exprs_view(es@));
    let mut s = String::new();
    let mut i: usize = 0;
    while i < es.len()
        invariant
            i <= es@.len(),
            parts == exprs_text(crate::language::exprs_view(es@)),
            s@ == join(parts.take(i as int), ", "@),
        decreases es@.len() - i,
    {
        proof {
            lemma_join_step(parts, ", "@, i as int);
            assert(decreases_to!(es => es[i as int]));
        }
        append_separator(&mut s, i == 0, ", ");
        let t = es[i].text();
        s.append(t.as_str());
        i += 1;
    }
    assert(parts.take(i as int) =~= parts);
    s
}

fn fields_text_of(fs: &Vec<StructExpressionField>) -> (r: String)
    ensures
        r@ == join(fields_text(crate::language::fields_view(fs@)), ", "@),
    decreases fs,
{
    let ghost parts = fields_text(crate::language::fields_view(fs@));
    let mut s = String::new();
    let mut i: usize = 0;
    while i < fs.len()
        invariant
            i <= fs@.len(),
            parts == fields_text(crate::language::fields_view(fs@)),
            s@ == join(parts.take(i as int), ", "@),
        decreases fs@.len() - i,
    {
        proof {
            lemma_join_step(parts, ", "@, i as int);
            assert(decreases_to!(fs => fs[i as int]));
        }
        append_separator(&mut s, i == 0, ", ");
        let f = &fs[i];
        let mut part = f.name.primary_name.clone();
        part.append(": ");
        let v = f.value.text();
        part.append(v.as_str());
        s.append(part.as_str());
        i += 1;
    }
    assert(parts.take(i as int) =~= parts);
    s
}

fn nodes_text_of(ns: &Vec<Node>) -> (r: String)
    ensures
        r@ == join(nodes_text(crate::language::nodes_view(ns@)), "; "@),
    decreases ns,
{
    let ghost parts = nodes_text(crate::language::nodes_view(ns@));
    let mut s = String::new();
    let mut i: usize = 0;
    while i < ns.len()
        invariant
            i <= ns@.len(),
            parts == nodes_text(crate::language::nodes_view(ns@)),
            s@ == join(parts.take(i as int), "; "@),
        decreases ns@.len() - i,
    {
        proof {
            lemma_join_step(parts, "; "@, i as int);
            assert(decreases_to!(ns => ns[i as int]));
        }
        append_separator(&mut s, i == 0, "; ");
        let t = ns[i].text();
        s.append(t.as_str());
        i += 1;
    }
    assert(parts.take(i as int) =~= parts);
    s
}

impl Scrutinee {
    pub fn text(&self) -> (r: String)
        ensures
            r@ == pat_text(self@),
        decreases self,
    {
        match self {
            Scrutinee::Literal { value } => value.text(),
            Scrutinee::VariableExpression { name } => name.primary_name.clone(),
            Scrutinee::Tuple { elems } => {
                let ghost parts = pats_text(crate::language::pats_view(elems@));
                let mut s = String::new();
                let mut i: usize = 0;
                while i < elems.len()
                    invariant
                        i <= elems@.len(),
                        parts == pats_text(crate::language::pats_view(elems@)),
                        s@ == join(parts.take(i as int), ", "@),
                        decreases_to!(*self => *elems),
                    decreases elems@.len() - i,
                {
                    proof {
                        lemma_join_step(parts, ", "@, i as int);
                        assert(decreases_to!(elems => elems[i as int]));
                    }
                    append_separator(&mut s, i == 0, ", ");
                    let t = elems[i].text();
                    s.append(t.as_str());
                    i += 1;
                }
                assert(parts.take(i as int) =~= parts);
                let mut r = String::from_str("(");
                r.append(s.as_str());
                r.append(")");
                r
            },
            Scrutinee::StructScrutinee { struct_name, fields } => {
                let ghost parts = pats_text(crate::language::field_pats_view(fields@));
                let mut s = String::new();
                let mut i: usize = 0;
                while i < fields.len()
                    invariant
                        i <= fields@.len(),
                        parts == pats_text(crate::language::field_pats_view(fields@)),
                        s@ == join(parts.take(i as int), ", "@),
                        decreases_to!(*self => *fields),
                    decreases fields@.len() - i,
                {
                    proof {
                        lemma_join_step(parts, ", "@, i as int);
                        assert(decreases_to!(fields => fields[i as int]));
                    }
                    append_separator(&mut s, i == 0, ", ");
                    let t = fields[i].scrutinee.text();
                    s.append(t.as_str());
                    i += 1;
                }
                assert(parts.take(i as int) =~= parts);
                let mut r = struct_name.primary_name.clone();
                r.append(" { ");
                r.append(s.as_str());
                r.append(" }");
                r
            },
        }
    }
}

impl MatchBranch {
    pub fn text(&self) -> (r: String)
        ensures
            r@ == branch_text(self@),
        decreases self,
    {
        let mut s = match &self.condition {
            MatchScrutinee::CatchAll => String::from_str("_"),
            MatchScrutinee::Scrutinee(p) => p.text(),
        };
        s.append(" => ");
        let t = self.result.text();
        s.append(t.as_str());
        s
    }
}

impl VariableDeclaration {
    /// `let`, then `mut` for a mutable binding, the name, `=` and the value.
    pub fn text(&self) -> (r: String)
        ensures
            r@ == node_text(NodeView::Let(self.name@, self.body@, self.is_mutable)),
        decreases self,
    {
        let mut output = String::from_str("let ");
        if self.is_mutable {
            output.append("mut ");
        }
        output.append(self.name.primary_name.as_str());
        output.append(" = ");
        let body = self.body.text();
        output.append(body.as_str());
        output
    }
}

impl Reassignment {
    pub fn text(&self) -> (r: String)
        ensures
            r@ == node_text(NodeView::Assign(self.lhs@, self.rhs@)),
        decreases self,
    {
        let mut output = self.lhs.text();
        output.append(" = ");
        let rhs = self.rhs.text();
        output.append(rhs.as_str());
        output
    }
}

impl Declaration {
    pub fn text(&self) -> (r: String)
        ensures
            r@ == node_text(node_view(Node::Declaration(*self))),
        decreases self,
    {
        match self {
            Declaration::VariableDeclaration(variable_decl) => variable_decl.text(),
            Declaration::Reassignment(reassign_decl) => reassign_decl.text(),
        }
    }
}

impl Node {
    pub fn text(&self) -> (r: String)
        ensures
            r@ == node_text(self@),
        decreases self,
    {
        match self {
            Node::Declaration(declaration) => declaration.text(),
            Node::Expression(e) => e.text(),
            Node::WhileLoop(w) => {
                let mut s = String::from_str("while ");
                let c = w.condition.text();
                s.append(c.as_str());
                s.append(" { ");
                let body = nodes_text_of(&w.body.contents);
                s.append(body.as_str());
                s.append(" }");
                s
            },
            Node::ReturnStatement(r) => {
                let mut s = String::from_str("return ");
                let e = r.expr.text();
                s.append(e.as_str());
                s
            },
            Node::MatchStatement(m) => {
                let mut s = String::from_str("match ");
                let p = m.primary.text();
                s.append(p.as_str());
                s.append(" { ");
                let ghost parts = branches_text(crate::language::branches_view(m.branches@));
                let mut inner = String::new();
                let mut i: usize = 0;
                while i < m.branches.len()
                    invariant
                        i <= m.branches@.len(),
                        parts == branches_text(crate::language::branches_view(m.branches@)),
                        inner@ == join(parts.take(i as int), ", "@),
                        decreases_to!(*self => m.branches),
                    decreases m.branches@.len() - i,
                {
                    proof {
                        lemma_join_step(parts, ", "@, i as int);
                        assert(decreases_to!(m.branches => m.branches[i as int]));
                    }
                    append_separator(&mut inner, i == 0, ", ");
                    let t = m.branches[i].text();
                    inner.append(t.as_str());
                    i += 1;
                }
                assert(parts.take(i as int) =~= parts);
                s.append(inner.as_str());
                s.append(" }");
                s
            },
            Node::IfExpression(ie) => {
                let mut s = String::from_str("if ");
                let c = ie.primary.text();
                s.append(c.as_str());
                s.append(" ");
                let t = ie.left.text();
                s.append(t.as_str());
                match &ie.right {
                    Some(f) => {
                        s.append(" else ");
                        let f = f.text();
                        s.append(f.as_str());
                    },
                    None => {},
                }
                s
            },
        }
    }
}

impl Tree {
    /// Each node on a line of its own, ended by `;`.
    pub fn text(&self) -> (r: String)
        ensures
            r@ == tree_text(self@),
    {
        let ghost ns = crate::language::nodes_view(self.nodes@);
        let mut line_separated = String::new();
        let mut i: usize = 0;
        while i < self.nodes.len()
            invariant
                i <= self.nodes@.len(),
                ns == crate::language::nodes_view(self.nodes@),
                line_separated@ == tree_text(ns.take(i as int)),
            decreases self.nodes@.len() - i,
        {
            proof {
                assert(ns.take(i + 1).drop_last() =~= ns.take(i as int));
            }
            let t = self.nodes[i].text();
            line_separated.append(t.as_str());
            line_separated.append(";\n");
            i += 1;
        }
        assert(ns.take(i as int) =~= ns);
        line_separated
    }
}

} // verus!
