//! The syntax tree of the expression language: executable types, their
//! mathematical views, and copies that provably keep the view.

use vstd::prelude::*;

pub mod constructors;

verus! {

/// A whole program: a sequence of top-level nodes.
#[derive(Debug)]
pub struct Tree {
    pub nodes: Vec<Node>,
}

#[derive(Debug, PartialEq)]
pub enum Node {
    Declaration(Declaration),
    Expression(Expression),
    WhileLoop(WhileLoop),
    ReturnStatement(ReturnStatement),
    MatchStatement(MatchStatement),
    IfExpression(IfExpression),
}

#[derive(Debug, Clone, PartialEq)]
pub enum Declaration {
    VariableDeclaration(VariableDeclaration),
    Reassignment(Reassignment),
}

#[derive(Debug, PartialEq)]
#[allow(inconsistent_fields)]
pub enum Expression {
    Literal { value: Literal },
    VariableExpression { name: Ident },
    BinOp { op2: Op2, left: Box<Expression>, right: Box<Expression> },
    Unit {},
    Array { contents: Vec<Expression> },
    CodeBlock { contents: CodeBlock },
    IfExp {
        condition: Box<Expression>,
        then_branch: Box<Expression>,
        else_branch: Option<Box<Expression>>,
    },
    Tuple { elems: Vec<Expression> },
    StructExpression { struct_name: Ident, fields: Vec<StructExpressionField> },
}

#[derive(Debug, Clone, Copy, PartialEq, Eq, Structural)]
pub enum Op2 {
    And,
    Eq,
}

#[derive(Debug, Clone, PartialEq)]
pub struct WhileLoop {
    pub condition: Expression,
    pub body: CodeBlock,
}

#[derive(Debug, Clone, PartialEq)]
pub struct ReturnStatement {
    pub expr: Expression,
}

#[derive(Debug, Clone, PartialEq)]
pub struct CodeBlock {
    pub contents: Vec<Node>,
}

#[derive(Debug, Clone, PartialEq)]
pub struct VariableDeclaration {
    pub name: Ident,
    pub body: Expression,
    pub is_mutable: bool,
}

#[derive(Debug, Clone, PartialEq)]
pub struct Ident {
    pub primary_name: String,
}

#[derive(Debug, Clone, PartialEq)]
pub struct Reassignment {
    /// the place being assigned to
    pub lhs: Box<Expression>,
    /// the value assigned to it
    pub rhs: Expression,
}

#[derive(Debug, PartialEq, Eq)]
pub enum Literal {
    U8(u8),
    U16(u16),
    U32(u32),
    U64(u64),
    String(String),
    Boolean(bool),
    Byte(u8),
}

#[derive(Debug, Clone, PartialEq)]
pub struct StructExpressionField {
    pub name: Ident,
    pub value: Expression,
}

#[derive(Debug, Clone, PartialEq)]
pub struct MatchStatement {
    pub primary: Expression,
    pub branches: Vec<MatchBranch>,
}

#[derive(Debug, Clone, PartialEq)]
pub struct IfExpression {
    pub primary: Expression,
    pub left: Expression,
    pub right: Option<Expression>,
}

#[derive(Debug, Clone, PartialEq)]
pub struct MatchBranch {
    pub condition: MatchScrutinee,
    pub result: Expression,
}

#[derive(Debug, Clone, PartialEq)]
pub enum MatchScrutinee {
    CatchAll,
    Scrutinee(Scrutinee),
}

#[derive(Debug, PartialEq)]
pub enum Scrutinee {
    Literal { value: Literal },
    VariableExpression { name: Ident },
    Tuple { elems: Vec<Scrutinee> },
    StructScrutinee { struct_name: Ident, fields: Vec<StructScrutineeField> },
}

#[derive(Debug, Clone, PartialEq)]
pub struct StructScrutineeField {
    pub scrutinee: Scrutinee,
}

// ---------------------------------------------------------------------------
// Mathematical views
// ---------------------------------------------------------------------------

/// A literal value, with its text as a sequence of characters.
pub enum LitView {
    U8(u8),
    U16(u16),
    U32(u32),
    U64(u64),
    Str(Seq<char>),
    Boolean(bool),
    Byte(u8),
}

/// An expression as a mathematical tree.
pub enum ExprView {
    Lit(LitView),
    Var(Seq<char>),
    BinOp(Op2, Box<ExprView>, Box<ExprView>),
    Unit,
    Array(Seq<ExprView>),
    Block(Seq<NodeView>),
    If(Box<ExprView>, Box<ExprView>, Option<Box<ExprView>>),
    Tuple(Seq<ExprView>),
    /// a record: its tag and its fields, each a name and a value
    Record(Seq<char>, Seq<(Seq<char>, ExprView)>),
}

/// A node as a mathematical tree.
pub enum NodeView {
    /// a local binding: name, value, and whether it is mutable
    Let(Seq<char>, ExprView, bool),
    Assign(ExprView, ExprView),
    Expr(ExprView),
    While(ExprView, Seq<NodeView>),
    Return(ExprView),
    Match(ExprView, Seq<BranchView>),
    If(ExprView, ExprView, Option<ExprView>),
}

/// A pattern as a mathematical tree.
pub enum PatView {
    Lit(LitView),
    Var(Seq<char>),
    Tuple(Seq<PatView>),
    /// a record pattern: its tag and its field patterns, in order
    Record(Seq<char>, Seq<PatView>),
}

/// A match branch; a catch-all branch has no pattern.
pub struct BranchView {
    pub pattern: Option<PatView>,
    pub result: ExprView,
}

pub open spec fn lit_view(l: Literal) -> LitView {
    match l {
        Literal::U8(n) => LitView::U8(n),
        Literal::U16(n) => LitView::U16(n),
        Literal::U32(n) => LitView::U32(n),
        Literal::U64(n) => LitView::U64(n),
        Literal::String(s) => LitView::Str(s@),
        Literal::Boolean(b) => LitView::Boolean(b),
        Literal::Byte(n) => LitView::Byte(n),
    }
}

pub open spec fn expr_view(e: Expression) -> ExprView
    decreases e,
{
    match e {
        Expression::Literal { value } => ExprView::Lit(lit_view(value)),
        Expression::VariableExpression { name } => ExprView::Var(name.primary_name@),
        Expression::BinOp { op2, left, right } => ExprView::BinOp(
            op2,
            Box::new(expr_view(*left)),
            Box::new(expr_view(*right)),
        ),
        Expression::Unit {  } => ExprView::Unit,
        Expression::Array { contents } => ExprView::Array(exprs_view(contents@)),
        Expression::CodeBlock { contents } => ExprView::Block(nodes_view(contents.contents@)),
        Expression::IfExp { condition, then_branch, else_branch } => ExprView::If(
            Box::new(expr_view(*condition)),
            Box::new(expr_view(*then_branch)),
            match else_branch {
                Some(e) => Some(Box::new(expr_view(*e))),
                None => None,
            },
        ),
        Expression::Tuple { elems } => ExprView::Tuple(exprs_view(elems@)),
        Expression::StructExpression { struct_name, fields } => ExprView::Record(
            struct_name.primary_name@,
            fields_view(fields@),
        ),
    }
}

pub open spec fn exprs_view(s: Seq<Expression>) -> Seq<ExprView>
    decreases s,
{
    Seq::new(
        s.len(),
        |i: int|
            if 0 <= i < s.len() {
                expr_view(s[i])
            } else {
                ExprView::Unit
            },
    )
}

pub open spec fn fields_view(s: Seq<StructExpressionField>) -> Seq<(Seq<char>, ExprView)>
    decreases s,
{
    Seq::new(
        s.len(),
        |i: int|
            if 0 <= i < s.len() {
                (s[i].name.primary_name@, expr_view(s[i].value))
            } else {
                (Seq::empty(), ExprView::Unit)
            },
    )
}

pub open spec fn node_view(n: Node) -> NodeView
    decreases n,
{
    match n {
        Node::Declaration(Declaration::VariableDeclaration(d)) => NodeView::Let(
            d.name.primary_name@,
            expr_view(d.body),
            d.is_mutable,
        ),
        Node::Declaration(Declaration::Reassignment(r)) => NodeView::Assign(
            expr_view(*r.lhs),
            expr_view(r.rhs),
        ),
        Node::Expression(e) => NodeView::Expr(expr_view(e)),
        Node::WhileLoop(w) => NodeView::While(expr_view(w.condition), nodes_view(w.body.contents@)),
        Node::ReturnStatement(r) => NodeView::Return(expr_view(r.expr)),
        Node::MatchStatement(m) => NodeView::Match(expr_view(m.primary), branches_view(m.branches@)),
        Node::IfExpression(i) => NodeView::If(
            expr_view(i.primary),
            expr_view(i.left),
            match i.right {
                Some(e) => Some(expr_view(e)),
                None => None,
            },
        ),
    }
}

pub open spec fn nodes_view(s: Seq<Node>) -> Seq<NodeView>
    decreases s,
{
    Seq::new(
        s.len(),
        |i: int|
            if 0 <= i < s.len() {
                node_view(s[i])
            } else {
                NodeView::Expr(ExprView::Unit)
            },
    )
}

pub open spec fn branch_view(b: MatchBranch) -> BranchView
    decreases b,
{
    BranchView {
        pattern: match b.condition {
            MatchScrutinee::CatchAll => None,
            MatchScrutinee::Scrutinee(p) => Some(pat_view(p)),
        },
        result: expr_view(b.result),
    }
}

pub open spec fn branches_view(s: Seq<MatchBranch>) -> Seq<BranchView>
    decreases s,
{
    Seq::new(
        s.len(),
        |i: int|
            if 0 <= i < s.len() {
                branch_view(s[i])
            } else {
                BranchView { pattern: None, result: ExprView::Unit }
            },
    )
}

pub open spec fn pat_view(p: Scrutinee) -> PatView
    decreases p,
{
    match p {
        Scrutinee::Literal { value } => PatView::Lit(lit_view(value)),
        Scrutinee::VariableExpression { name } => PatView::Var(name.primary_name@),
        Scrutinee::Tuple { elems } => PatView::Tuple(pats_view(elems@)),
        Scrutinee::StructScrutinee { struct_name, fields } => PatView::Record(
            struct_name.primary_name@,
            field_pats_view(fields@),
        ),
    }
}

pub open spec fn pats_view(s: Seq<Scrutinee>) -> Seq<PatView>
    decreases s,
{
    Seq::new(
        s.len(),
        |i: int|
            if 0 <= i < s.len() {
                pat_view(s[i])
            } else {
                PatView::Var(Seq::empty())
            },
    )
}

pub open spec fn field_pats_view(s: Seq<StructScrutineeField>) -> Seq<PatView>
    decreases s,
{
    Seq::new(
        s.len(),
        |i: int|
            if 0 <= i < s.len() {
                pat_view(s[i].scrutinee)
            } else {
                PatView::Var(Seq::empty())
            },
    )
}

impl View for Literal {
    type V = LitView;

    open spec fn view(&self) -> LitView {
        lit_view(*self)
    }
}

impl View for Ident {
    type V = Seq<char>;

    open spec fn view(&self) -> Seq<char> {
        self.primary_name@
    }
}

impl View for Expression {
    type V = ExprView;

    open spec fn view(&self) -> ExprView {
        expr_view(*self)
    }
}

impl View for Node {
    type V = NodeView;

    open spec fn view(&self) -> NodeView {
        node_view(*self)
    }
}

impl View for Scrutinee {
    type V = PatView;

    open spec fn view(&self) -> PatView {
        pat_view(*self)
    }
}

impl View for MatchBranch {
    type V = BranchView;

    open spec fn view(&self) -> BranchView {
        branch_view(*self)
    }
}

impl View for Tree {
    type V = Seq<NodeView>;

    open spec fn view(&self) -> Seq<NodeView> {
        nodes_view(self.nodes@)
    }
}

// ---------------------------------------------------------------------------
// Copies that keep the view
// ---------------------------------------------------------------------------

pub fn copy_ident(i: &Ident) -> (r: Ident)
    ensures
        r@ == i@,
{
    Ident { primary_name: i.primary_name.clone() }
}

pub fn copy_literal(l: &Literal) -> (r: Literal)
    ensures
        r@ == l@,
{
    match l {
        Literal::U8(n) => Literal::U8(*n),
        Literal::U16(n) => Literal::U16(*n),
        Literal::U32(n) => Literal::U32(*n),
        Literal::U64(n) => Literal::U64(*n),
        Literal::String(s) => Literal::String(s.clone()),
        Literal::Boolean(b) => Literal::Boolean(*b),
        Literal::Byte(n) => Literal::Byte(*n),
    }
}

pub fn copy_expression(e: &Expression) -> (r: Expression)
    ensures
        r@ == e@,
    decreases e,
{
    match e {
        Expression::Literal { value } => Expression::Literal { value: copy_literal(value) },
        Expression::VariableExpression { name } => Expression::VariableExpression {
            name: copy_ident(name),
        },
        Expression::BinOp { op2, left, right } => Expression::BinOp {
            op2: *op2,
            left: Box::new(copy_expression(left)),
            right: Box::new(copy_expression(right)),
        },
        Expression::Unit {  } => Expression::Unit {  },
        Expression::Array { contents } => Expression::Array { contents: copy_expressions(contents) },
        Expression::CodeBlock { contents } => Expression::CodeBlock {
            contents: CodeBlock { contents: copy_nodes(&contents.contents) },
        },
        Expression::IfExp { condition, then_branch, else_branch } => {
            let else_copy = match else_branch {
                Some(x) => Some(Box::new(copy_expression(x))),
                None => None,
            };
            Expression::IfExp {
                condition: Box::new(copy_expression(condition)),
                then_branch: Box::new(copy_expression(then_branch)),
                else_branch: else_copy,
            }
        },
        Expression::Tuple { elems } => Expression::Tuple { elems: copy_expressions(elems) },
        Expression::StructExpression { struct_name, fields } => Expression::StructExpression {
            struct_name: copy_ident(struct_name),
            fields: copy_fields(fields),
        },
    }
}

pub fn copy_expressions(v: &Vec<Expression>) -> (r: Vec<Expression>)
    ensures
        exprs_view(r@) == exprs_view(v@),
    decreases v,
{
    let mut out: Vec<Expression> = Vec::new();
    let mut i: usize = 0;
    while i < v.len()
        invariant
            i <= v@.len(),
            out@.len() == i,
            forall|j: int| 0 <= j < i ==> out@[j]@ == v@[j]@,
        decreases v@.len() - i,
    {
        proof {
            assert(decreases_to!(v => v[i as int]));
        }
        out.push(copy_expression(&v[i]));
        i += 1;
    }
    assert(exprs_view(out@) =~= exprs_view(v@));
    out
}

fn copy_fields(v: &Vec<StructExpressionField>) -> (r: Vec<StructExpressionField>)
    ensures
        fields_view(r@) == fields_view(v@),
    decreases v,
{
    let mut out: Vec<StructExpressionField> = Vec::new();
    let mut i: usize = 0;
    while i < v.len()
        invariant
            i <= v@.len(),
            out@.len() == i,
            forall|j: int|
                0 <= j < i ==> out@[j].name@ == v@[j].name@ && out@[j].value@ == v@[j].value@,
        decreases v@.len() - i,
    {
        proof {
            assert(decreases_to!(v => v[i as int]));
        }
        let f = &v[i];
        out.push(StructExpressionField { name: copy_ident(&f.name), value: copy_expression(&f.value) });
        i += 1;
    }
    assert(fields_view(out@) =~= fields_view(v@));
    out
}

pub fn copy_node(n: &Node) -> (r: Node)
    ensures
        r@ == n@,
    decreases n,
{
    match n {
        Node::Declaration(Declaration::VariableDeclaration(d)) => Node::Declaration(
            Declaration::VariableDeclaration(
                VariableDeclaration {
                    name: copy_ident(&d.name),
                    body: copy_expression(&d.body),
                    is_mutable: d.is_mutable,
                },
            ),
        ),
        Node::Declaration(Declaration::Reassignment(a)) => Node::Declaration(
            Declaration::Reassignment(
                Reassignment { lhs: Box::new(copy_expression(&a.lhs)), rhs: copy_expression(&a.rhs) },
            ),
        ),
        Node::Expression(e) => Node::Expression(copy_expression(e)),
        Node::WhileLoop(w) => Node::WhileLoop(
            WhileLoop {
                condition: copy_expression(&w.condition),
                body: CodeBlock { contents: copy_nodes(&w.body.contents) },
            },
        ),
        Node::ReturnStatement(r) => Node::ReturnStatement(
            ReturnStatement { expr: copy_expression(&r.expr) },
        ),
        Node::MatchStatement(m) => Node::MatchStatement(
            MatchStatement {
                primary: copy_expression(&m.primary),
                branches: copy_branches(&m.branches),
            },
        ),
        Node::IfExpression(i) => {
            let right = match &i.right {
                Some(x) => Some(copy_expression(x)),
                None => None,
            };
            Node::IfExpression(
                IfExpression {
                    primary: copy_expression(&i.primary),
                    left: copy_expression(&i.left),
                    right,
                },
            )
        },
    }
}

pub fn copy_nodes(v: &Vec<Node>) -> (r: Vec<Node>)
    ensures
        nodes_view(r@) == nodes_view(v@),
    decreases v,
{
    let mut out: Vec<Node> = Vec::new();
    let mut i: usize = 0;
    while i < v.len()
        invariant
            i <= v@.len(),
            out@.len() == i,
            forall|j: int| 0 <= j < i ==> out@[j]@ == v@[j]@,
        decreases v@.len() - i,
    {
        proof {
            assert(decreases_to!(v => v[i as int]));
        }
        out.push(copy_node(&v[i]));
        i += 1;
    }
    assert(nodes_view(out@) =~= nodes_view(v@));
    out
}

fn copy_branches(v: &Vec<MatchBranch>) -> (r: Vec<MatchBranch>)
    ensures
        branches_view(r@) == branches_view(v@),
    decreases v,
{
    let mut out: Vec<MatchBranch> = Vec::new();
    let mut i: usize = 0;
    while i < v.len()
        invariant
            i <= v@.len(),
            out@.len() == i,
            forall|j: int| 0 <= j < i ==> out@[j]@ == v@[j]@,
        decreases v@.len() - i,
    {
        proof {
            assert(decreases_to!(v => v[i as int]));
        }
        let b = &v[i];
        let condition = match &b.condition {
            MatchScrutinee::CatchAll => MatchScrutinee::CatchAll,
            MatchScrutinee::Scrutinee(p) => MatchScrutinee::Scrutinee(copy_scrutinee(p)),
        };
        out.push(MatchBranch { condition, result: copy_expression(&b.result) });
        i += 1;
    }
    assert(branches_view(out@) =~= branches_view(v@));
    out
}

pub fn copy_scrutinee(p: &Scrutinee) -> (r: Scrutinee)
    ensures
        r@ == p@,
    decreases p,
{
    match p {
        Scrutinee::Literal { value } => Scrutinee::Literal { value: copy_literal(value) },
        Scrutinee::VariableExpression { name } => Scrutinee::VariableExpression {
            name: copy_ident(name),
        },
        Scrutinee::Tuple { elems } => {
            let mut out: Vec<Scrutinee> = Vec::new();
            let mut i: usize = 0;
            while i < elems.len()
                invariant
                    i <= elems@.len(),
                    out@.len() == i,
                    forall|j: int| 0 <= j < i ==> out@[j]@ == elems@[j]@,
                    decreases_to!(*p => *elems),
                decreases elems@.len() - i,
            {
                proof {
                    assert(decreases_to!(elems => elems[i as int]));
                }
                out.push(copy_scrutinee(&elems[i]));
                i += 1;
            }
            assert(pats_view(out@) =~= pats_view(elems@));
            Scrutinee::Tuple { elems: out }
        },
        Scrutinee::StructScrutinee { struct_name, fields } => {
            let mut out: Vec<StructScrutineeField> = Vec::new();
            let mut i: usize = 0;
            while i < fields.len()
                invariant
                    i <= fields@.len(),
                    out@.len() == i,
                    forall|j: int| 0 <= j < i ==> out@[j].scrutinee@ == fields@[j].scrutinee@,
                    decreases_to!(*p => *fields),
                decreases fields@.len() - i,
            {
                proof {
                    assert(decreases_to!(fields => fields[i as int]));
                }
                out.push(StructScrutineeField { scrutinee: copy_scrutinee(&fields[i].scrutinee) });
                i += 1;
            }
            assert(field_pats_view(out@) =~= field_pats_view(fields@));
            Scrutinee::StructScrutinee { struct_name: copy_ident(struct_name), fields: out }
        },
    }
}

impl Clone for Literal {
    fn clone(&self) -> (r: Self)
        ensures
            r@ == self@,
    {
        copy_literal(self)
    }
}

impl Clone for Expression {
    fn clone(&self) -> (r: Self)
        ensures
            r@ == self@,
    {
        copy_expression(self)
    }
}

impl Clone for Node {
    fn clone(&self) -> (r: Self)
        ensures
            r@ == self@,
    {
        copy_node(self)
    }
}

impl Clone for Scrutinee {
    fn clone(&self) -> (r: Self)
        ensures
            r@ == self@,
    {
        copy_scrutinee(self)
    }
}

} // verus!
