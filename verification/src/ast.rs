//! The syntax tree that the parser builds.
//!
//! Every node that the parser allocates carries a [`NodeId`] handed out by
//! [`crate::parse_context::ParseContext`].
use vstd::prelude::*;

verus! {

#[verifier::external_type_specification]
#[verifier::external_body]
pub struct ExDecimal(rust_decimal::Decimal);


#[derive(Clone, Copy, PartialEq, Eq, Debug)]
pub struct NodeId(pub u32);

#[derive(Debug)]
pub struct AstNode<T> {
    pub id: NodeId,
    pub node: T,
}

#[derive(Clone, Copy, PartialEq, Eq, Debug)]
pub enum CaseSensitivity {
    CaseSensitive,
    CaseInsensitive,
}

#[derive(Debug)]
pub struct SymbolPrimitive {
    pub value: String,
    pub case: CaseSensitivity,
}

#[derive(Clone, Copy, PartialEq, Eq, Debug)]
pub enum ScopeQualifier {
    Unqualified,
    Qualified,
}

#[derive(Debug)]
pub struct VarRef {
    pub name: SymbolPrimitive,
    pub qualifier: ScopeQualifier,
}

#[derive(Clone, Copy, PartialEq, Eq, Debug)]
pub enum BinOpKind {
    Add,
    Concat,
    Div,
    Mod,
    Mul,
    Sub,
    And,
    Or,
    Eq,
    Gt,
    Gte,
    Lt,
    Lte,
    Ne,
    Is,
}

#[derive(Clone, Copy, PartialEq, Eq, Debug)]
pub enum UniOpKind {
    Pos,
    Neg,
    Not,
}

/// A floating-point literal, held as the text that denotes it.
#[derive(Debug, PartialEq)]
pub enum FloatLiteral {
    Nan,
    PosInfinity,
    NegInfinity,
    /// Digits, `.`, exponent, with any `_` separators removed.
    Finite(String),
}

#[derive(Debug)]
pub enum Lit {
    Null,
    Missing,
    Int64Lit(i64),
    DecimalLit(rust_decimal::Decimal),
    DoubleLit(FloatLiteral),
    BoolLit(bool),
    CharStringLit(String),
}

#[derive(Debug)]
pub struct BinOp {
    pub kind: BinOpKind,
    pub lhs: Box<Expr>,
    pub rhs: Box<Expr>,
}

#[derive(Debug)]
pub struct UniOp {
    pub kind: UniOpKind,
    pub expr: Box<Expr>,
}

#[derive(Debug)]
pub struct Like {
    pub value: Box<Expr>,
    pub pattern: Box<Expr>,
    pub escape: Option<Box<Expr>>,
}

#[derive(Debug)]
pub struct Between {
    pub value: Box<Expr>,
    pub from: Box<Expr>,
    pub to: Box<Expr>,
}

#[derive(Debug)]
pub struct In {
    pub lhs: Box<Expr>,
    pub rhs: Box<Expr>,
}

#[derive(Debug)]
pub struct ExprPair {
    pub first: Box<Expr>,
    pub second: Box<Expr>,
}

#[derive(Debug)]
pub struct SimpleCase {
    pub expr: Box<Expr>,
    pub cases: Vec<ExprPair>,
    pub default: Option<Box<Expr>>,
}

#[derive(Debug)]
pub struct SearchedCase {
    pub cases: Vec<ExprPair>,
    pub default: Option<Box<Expr>>,
}

#[derive(Debug)]
pub enum Case {
    SimpleCase(SimpleCase),
    SearchedCase(SearchedCase),
}

#[derive(Debug)]
pub struct Struct {
    pub fields: Vec<ExprPair>,
}

#[derive(Debug)]
pub struct Bag {
    pub values: Vec<Box<Expr>>,
}

#[derive(Debug)]
pub struct List {
    pub values: Vec<Box<Expr>>,
}

#[derive(Debug)]
pub struct PathExpr {
    pub index: Box<Expr>,
}

#[derive(Debug)]
pub enum PathStep {
    PathProject(PathExpr),
    PathIndex(PathExpr),
    PathForEach,
    PathUnpivot,
}

#[derive(Debug)]
pub struct Path {
    pub root: Box<Expr>,
    pub steps: Vec<PathStep>,
}

#[derive(Debug)]
pub enum CallArg {
    Star(),
    Positional(Box<Expr>),
}

#[derive(Debug)]
pub struct Call {
    pub func_name: SymbolPrimitive,
    pub args: Vec<AstNode<CallArg>>,
}

#[derive(Debug)]
pub struct CallAgg {
    pub func_name: SymbolPrimitive,
    pub args: Vec<AstNode<CallArg>>,
}

// ── Queries ────────────────────────────────────────────────────────────

#[derive(Clone, Copy, PartialEq, Eq, Debug)]
pub enum SetQuantifier {
    All,
    Distinct,
}

#[derive(Debug)]
pub struct ProjectExpr {
    pub expr: Box<Expr>,
    pub as_alias: Option<SymbolPrimitive>,
}

#[derive(Debug)]
pub enum ProjectItem {
    ProjectExpr(ProjectExpr),
}

#[derive(Debug)]
pub enum ProjectionKind {
    ProjectStar,
    ProjectList(Vec<AstNode<ProjectItem>>),
    ProjectValue(Box<Expr>),
}

#[derive(Debug)]
pub struct Projection {
    pub kind: ProjectionKind,
    pub setq: Option<SetQuantifier>,
}

#[derive(Clone, Copy, PartialEq, Eq, Debug)]
pub enum JoinKind {
    Inner,
    Left,
    Right,
    Full,
    Cross,
}

#[derive(Debug)]
pub enum JoinSpec {
    On(Box<Expr>),
}

#[derive(Debug)]
pub struct FromLet {
    pub expr: Box<Expr>,
    pub as_alias: Option<SymbolPrimitive>,
    pub at_alias: Option<SymbolPrimitive>,
}

#[derive(Debug)]
pub struct Join {
    pub kind: JoinKind,
    pub left: Box<FromSource>,
    pub right: Box<FromSource>,
    pub predicate: Option<AstNode<JoinSpec>>,
}

#[derive(Debug)]
pub enum FromSource {
    FromLet(AstNode<FromLet>),
    Join(AstNode<Join>),
}

#[derive(Debug)]
pub struct FromClause {
    pub source: FromSource,
}

#[derive(Debug)]
pub struct WhereClause {
    pub expr: Box<Expr>,
}

#[derive(Clone, Copy, PartialEq, Eq, Debug)]
pub enum GroupingStrategy {
    GroupFull,
    GroupPartial,
}

#[derive(Debug)]
pub struct GroupKey {
    pub expr: Box<Expr>,
    pub as_alias: Option<SymbolPrimitive>,
}

#[derive(Debug)]
pub struct GroupByExpr {
    pub strategy: Option<GroupingStrategy>,
    pub keys: Vec<AstNode<GroupKey>>,
    pub group_as_alias: Option<SymbolPrimitive>,
}

#[derive(Debug)]
pub struct HavingClause {
    pub expr: Box<Expr>,
}

#[derive(Clone, Copy, PartialEq, Eq, Debug)]
pub enum OrderingSpec {
    Asc,
    Desc,
}

#[derive(Debug)]
pub struct SortSpec {
    pub expr: Box<Expr>,
    pub ordering_spec: Option<OrderingSpec>,
}

#[derive(Debug)]
pub struct OrderByExpr {
    pub sort_specs: Vec<AstNode<SortSpec>>,
}

#[derive(Debug)]
pub struct LimitOffsetClause {
    pub limit: Option<Box<Expr>>,
    pub offset: Option<Box<Expr>>,
}

#[derive(Debug)]
pub struct Select {
    pub project: AstNode<Projection>,
    pub from: Option<AstNode<FromClause>>,
    pub where_clause: Option<Box<AstNode<WhereClause>>>,
    pub group_by: Option<Box<AstNode<GroupByExpr>>>,
    pub having: Option<Box<AstNode<HavingClause>>>,
}

#[derive(Debug)]
pub enum QuerySet {
    Select(Box<AstNode<Select>>),
}

#[derive(Debug)]
pub struct Query {
    pub set: AstNode<QuerySet>,
    pub order_by: Option<Box<AstNode<OrderByExpr>>>,
    pub limit_offset: Option<Box<AstNode<LimitOffsetClause>>>,
}

#[derive(Debug)]
pub struct TopLevelQuery {
    pub query: AstNode<Query>,
}

#[derive(Debug)]
pub enum Expr {
    Lit(AstNode<Lit>),
    VarRef(AstNode<VarRef>),
    BinOp(AstNode<BinOp>),
    UniOp(AstNode<UniOp>),
    Like(AstNode<Like>),
    Between(AstNode<Between>),
    In(AstNode<In>),
    Case(AstNode<Case>),
    Struct(AstNode<Struct>),
    Bag(AstNode<Bag>),
    List(AstNode<List>),
    Path(AstNode<Path>),
    Call(AstNode<Call>),
    CallAgg(AstNode<CallAgg>),
    Query(AstNode<Query>),
}

// ── DML ────────────────────────────────────────────────────────────────

#[derive(Debug)]
pub struct Insert {
    pub target: Box<Expr>,
    pub values: Box<Expr>,
}

#[derive(Debug)]
pub struct Assignment {
    pub target: Box<Expr>,
    pub value: Box<Expr>,
}

#[derive(Debug)]
pub struct SetAssignment {
    pub assignment: Assignment,
}

#[derive(Debug)]
pub struct Delete {}

#[derive(Debug)]
pub enum DmlOp {
    Insert(Insert),
    Update(SetAssignment),
    Delete(Delete),
}

#[derive(Debug)]
pub struct Dml {
    pub op: DmlOp,
    pub from_clause: Option<FromClause>,
    pub where_clause: Option<Box<Expr>>,
}

#[derive(Debug)]
pub enum ConflictTarget {
    Columns(Vec<String>),
    Constraint(String),
}

#[derive(Debug)]
pub struct MergeFunction {
    pub function_name: String,
    pub arguments: Vec<Box<Expr>>,
}

#[derive(Debug)]
pub enum ExtendedExpr {
    FunctionCall(MergeFunction),
    PartiQL(Box<Expr>),
}

#[derive(Debug)]
pub struct SetClause {
    pub column: String,
    pub expr: ExtendedExpr,
}

#[derive(Debug)]
pub enum ConflictAction {
    DoNothing,
    DoUpdateExcluded { where_clause: Option<Box<Expr>> },
    DoUpdateSet { set_clauses: Vec<SetClause>, where_clause: Option<Box<Expr>> },
    DoReplaceExcluded { where_clause: Option<Box<Expr>> },
    DoReplaceValue { value: Box<Expr>, where_clause: Option<Box<Expr>> },
}

#[derive(Debug)]
pub struct OnConflict {
    pub expr: Box<Expr>,
    pub target: Option<ConflictTarget>,
    pub conflict_action: ConflictAction,
}


// ── Node ids ───────────────────────────────────────────────────────────

pub open spec fn opt_expr_ids(e: Option<Box<Expr>>) -> Set<nat>
    decreases e,
{
    match e {
        Some(b) => expr_ids(*b),
        None => Set::empty(),
    }
}

pub open spec fn boxed_ids(s: Seq<Box<Expr>>) -> Set<nat>
    decreases s,
{
    if s.len() == 0 {
        Set::empty()
    } else {
        boxed_ids(s.drop_last()).union(expr_ids(*s.last()))
    }
}

pub open spec fn pair_ids(s: Seq<ExprPair>) -> Set<nat>
    decreases s,
{
    if s.len() == 0 {
        Set::empty()
    } else {
        pair_ids(s.drop_last()).union(expr_ids(*s.last().first)).union(expr_ids(*s.last().second))
    }
}

pub open spec fn step_ids(s: Seq<PathStep>) -> Set<nat>
    decreases s,
{
    if s.len() == 0 {
        Set::empty()
    } else {
        step_ids(s.drop_last()).union(
            match s.last() {
                PathStep::PathProject(pe) => expr_ids(*pe.index),
                PathStep::PathIndex(pe) => expr_ids(*pe.index),
                _ => Set::empty(),
            },
        )
    }
}

pub open spec fn arg_ids(s: Seq<AstNode<CallArg>>) -> Set<nat>
    decreases s,
{
    if s.len() == 0 {
        Set::empty()
    } else {
        arg_ids(s.drop_last()).insert(s.last().id.0 as nat).union(
            match s.last().node {
                CallArg::Positional(b) => expr_ids(*b),
                CallArg::Star() => Set::empty(),
            },
        )
    }
}

pub open spec fn project_item_ids(s: Seq<AstNode<ProjectItem>>) -> Set<nat>
    decreases s,
{
    if s.len() == 0 {
        Set::empty()
    } else {
        project_item_ids(s.drop_last()).insert(s.last().id.0 as nat).union(
            match s.last().node {
                ProjectItem::ProjectExpr(pe) => expr_ids(*pe.expr),
            },
        )
    }
}

pub open spec fn group_key_ids(s: Seq<AstNode<GroupKey>>) -> Set<nat>
    decreases s,
{
    if s.len() == 0 {
        Set::empty()
    } else {
        group_key_ids(s.drop_last()).insert(s.last().id.0 as nat).union(expr_ids(*s.last().node.expr))
    }
}

pub open spec fn sort_ids(s: Seq<AstNode<SortSpec>>) -> Set<nat>
    decreases s,
{
    if s.len() == 0 {
        Set::empty()
    } else {
        sort_ids(s.drop_last()).insert(s.last().id.0 as nat).union(expr_ids(*s.last().node.expr))
    }
}

pub open spec fn from_ids(f: FromSource) -> Set<nat>
    decreases f,
{
    match f {
        FromSource::FromLet(n) => set![n.id.0 as nat].union(expr_ids(*n.node.expr)),
        FromSource::Join(n) => set![n.id.0 as nat].union(from_ids(*n.node.left)).union(
            from_ids(*n.node.right),
        ).union(
            match n.node.predicate {
                Some(p) => set![p.id.0 as nat].union(
                    match p.node {
                        JoinSpec::On(b) => expr_ids(*b),
                    },
                ),
                None => Set::empty(),
            },
        ),
    }
}

pub open spec fn projection_ids(p: Projection) -> Set<nat>
    decreases p,
{
    match p.kind {
        ProjectionKind::ProjectStar => Set::empty(),
        ProjectionKind::ProjectList(items) => project_item_ids(items@),
        ProjectionKind::ProjectValue(b) => expr_ids(*b),
    }
}

pub open spec fn from_clause_ids(f: Option<AstNode<FromClause>>) -> Set<nat>
    decreases f,
{
    match f {
        Some(f) => from_ids(f.node.source).insert(f.id.0 as nat),
        None => Set::empty(),
    }
}

pub open spec fn where_ids(w: Option<Box<AstNode<WhereClause>>>) -> Set<nat>
    decreases w,
{
    match w {
        Some(w) => expr_ids(*w.node.expr).insert(w.id.0 as nat),
        None => Set::empty(),
    }
}

pub open spec fn group_by_ids(g: Option<Box<AstNode<GroupByExpr>>>) -> Set<nat>
    decreases g,
{
    match g {
        Some(g) => group_key_ids(g.node.keys@).insert(g.id.0 as nat),
        None => Set::empty(),
    }
}

pub open spec fn having_ids(h: Option<Box<AstNode<HavingClause>>>) -> Set<nat>
    decreases h,
{
    match h {
        Some(h) => expr_ids(*h.node.expr).insert(h.id.0 as nat),
        None => Set::empty(),
    }
}

pub open spec fn order_by_ids(o: Option<Box<AstNode<OrderByExpr>>>) -> Set<nat>
    decreases o,
{
    match o {
        Some(o) => sort_ids(o.node.sort_specs@).insert(o.id.0 as nat),
        None => Set::empty(),
    }
}

pub open spec fn limit_offset_ids(l: Option<Box<AstNode<LimitOffsetClause>>>) -> Set<nat>
    decreases l,
{
    match l {
        Some(l) => opt_expr_ids(l.node.limit).union(opt_expr_ids(l.node.offset)).insert(l.id.0 as nat),
        None => Set::empty(),
    }
}

/// The ids of a `SELECT`'s parts, its projection node included.
pub open spec fn select_body_ids(s: Select) -> Set<nat>
    decreases s,
{
    projection_ids(s.project.node).insert(s.project.id.0 as nat).union(from_clause_ids(s.from)).union(
        where_ids(s.where_clause),
    ).union(group_by_ids(s.group_by)).union(having_ids(s.having))
}

pub open spec fn select_ids(n: AstNode<Select>) -> Set<nat>
    decreases n,
{
    select_body_ids(n.node).insert(n.id.0 as nat)
}

pub open spec fn query_ids(n: AstNode<Query>) -> Set<nat>
    decreases n,
{
    let q = n.node;
    match q.set.node {
        QuerySet::Select(sel) => select_ids(*sel),
    }.insert(q.set.id.0 as nat).insert(n.id.0 as nat).union(order_by_ids(q.order_by)).union(
        limit_offset_ids(q.limit_offset),
    )
}

/// The ids of all nodes in an expression.
pub open spec fn expr_ids(e: Expr) -> Set<nat>
    decreases e,
{
    match e {
        Expr::Lit(n) => set![n.id.0 as nat],
        Expr::VarRef(n) => set![n.id.0 as nat],
        Expr::BinOp(n) => set![n.id.0 as nat].union(expr_ids(*n.node.lhs)).union(
            expr_ids(*n.node.rhs),
        ),
        Expr::UniOp(n) => set![n.id.0 as nat].union(expr_ids(*n.node.expr)),
        Expr::Like(n) => set![n.id.0 as nat].union(expr_ids(*n.node.value)).union(
            expr_ids(*n.node.pattern),
        ).union(opt_expr_ids(n.node.escape)),
        Expr::Between(n) => set![n.id.0 as nat].union(expr_ids(*n.node.value)).union(
            expr_ids(*n.node.from),
        ).union(expr_ids(*n.node.to)),
        Expr::In(n) => set![n.id.0 as nat].union(expr_ids(*n.node.lhs)).union(
            expr_ids(*n.node.rhs),
        ),
        Expr::Case(n) => set![n.id.0 as nat].union(
            match n.node {
                Case::SimpleCase(c) => expr_ids(*c.expr).union(pair_ids(c.cases@)).union(
                    opt_expr_ids(c.default),
                ),
                Case::SearchedCase(c) => pair_ids(c.cases@).union(opt_expr_ids(c.default)),
            },
        ),
        Expr::Struct(n) => set![n.id.0 as nat].union(pair_ids(n.node.fields@)),
        Expr::Bag(n) => set![n.id.0 as nat].union(boxed_ids(n.node.values@)),
        Expr::List(n) => set![n.id.0 as nat].union(boxed_ids(n.node.values@)),
        Expr::Path(n) => set![n.id.0 as nat].union(expr_ids(*n.node.root)).union(
            step_ids(n.node.steps@),
        ),
        Expr::Call(n) => set![n.id.0 as nat].union(arg_ids(n.node.args@)),
        Expr::CallAgg(n) => set![n.id.0 as nat].union(arg_ids(n.node.args@)),
        Expr::Query(n) => query_ids(n),
    }
}

/// Every id in `ids` lies in `[lo, hi)`.
pub open spec fn ids_within(ids: Set<nat>, lo: nat, hi: nat) -> bool {
    forall|i: nat| #[trigger] ids.contains(i) ==> lo <= i < hi
}

/// The ids of all nodes in a DML statement.
pub open spec fn dml_ids(d: Dml) -> Set<nat> {
    match d.op {
        DmlOp::Insert(i) => expr_ids(*i.target).union(expr_ids(*i.values)),
        DmlOp::Update(u) => expr_ids(*u.assignment.target).union(expr_ids(*u.assignment.value)),
        DmlOp::Delete(_) => Set::empty(),
    }.union(
        match d.from_clause {
            Some(f) => from_ids(f.source),
            None => Set::empty(),
        },
    ).union(opt_expr_ids(d.where_clause))
}

/// The ids of all nodes in a sequence of expressions.
pub open spec fn exprs_ids(s: Seq<Expr>) -> Set<nat>
    decreases s.len(),
{
    if s.len() == 0 {
        Set::empty()
    } else {
        exprs_ids(s.drop_last()).union(expr_ids(s.last()))
    }
}

pub open spec fn extended_ids(e: ExtendedExpr) -> Set<nat> {
    match e {
        ExtendedExpr::FunctionCall(f) => boxed_ids(f.arguments@),
        ExtendedExpr::PartiQL(b) => expr_ids(*b),
    }
}

pub open spec fn set_clause_ids(s: Seq<SetClause>) -> Set<nat>
    decreases s.len(),
{
    if s.len() == 0 {
        Set::empty()
    } else {
        set_clause_ids(s.drop_last()).union(extended_ids(s.last().expr))
    }
}

pub open spec fn action_ids(a: ConflictAction) -> Set<nat> {
    match a {
        ConflictAction::DoNothing => Set::empty(),
        ConflictAction::DoUpdateExcluded { where_clause } => opt_expr_ids(where_clause),
        ConflictAction::DoUpdateSet { set_clauses, where_clause } => set_clause_ids(set_clauses@).union(
            opt_expr_ids(where_clause),
        ),
        ConflictAction::DoReplaceExcluded { where_clause } => opt_expr_ids(where_clause),
        ConflictAction::DoReplaceValue { value, where_clause } => expr_ids(*value).union(
            opt_expr_ids(where_clause),
        ),
    }
}

/// The ids of all nodes in an `ON CONFLICT` clause.
pub open spec fn on_conflict_ids(o: OnConflict) -> Set<nat> {
    expr_ids(*o.expr).union(action_ids(o.conflict_action))
}

pub proof fn lemma_ids_widen(ids: Set<nat>, lo: nat, mid: nat, hi: nat)
    requires
        ids_within(ids, lo, mid),
        mid <= hi,
    ensures
        ids_within(ids, lo, hi),
{
}

pub proof fn lemma_ids_insert(a: Set<nat>, x: nat, lo: nat, hi: nat)
    requires
        ids_within(a, lo, hi),
        lo <= x < hi,
    ensures
        ids_within(a.insert(x), lo, hi),
{
}

} // verus!
