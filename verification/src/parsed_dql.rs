//! A `SELECT` parsed in one pass, with the metadata that callers need
//! read out of it: the names of the tables in `FROM`, and the aliases of
//! sources that unnest a path of another source.
use crate::ast::{
    ids_within, query_ids, AstNode, Expr, FromLet, FromSource, Join, Lit, PathStep, Query, QuerySet, TopLevelQuery,
};
use crate::dql::select_parser::{plain_body, SelectParser};
use crate::parse_context::{ParseContext, ParseError};
use crate::text::{append_str, append_string, chars_of, push_char, skip_space, spec_kw_ws};
use smallvec::SmallVec;
use vstd::prelude::*;

verus! {

// ── Collections ────────────────────────────────────────────────────────

/// Table names, kept in a `SmallVec` with room for four inline.
#[verifier::external_body]
#[derive(Debug)]
pub struct TableNames {
    items: SmallVec<[String; 4]>,
}

/// The names held, in order.
pub uninterp spec fn table_name_items(v: TableNames) -> Seq<String>;

impl TableNames {
    /// An empty list.
    ///
    /// Trusted: calls `SmallVec::new`, which creates an empty vector.
    #[verifier::external_body]
    fn new() -> (r: TableNames)
        ensures
            table_name_items(r) == Seq::<String>::empty(),
    {
        TableNames { items: SmallVec::new() }
    }

    /// Append a name.
    ///
    /// Trusted: calls `SmallVec::push`, which appends the item at the end
    /// and keeps the others in order. `push` panics only when the new
    /// capacity overflows, which needs more items than memory can hold;
    /// that case is left unsaid.
    #[verifier::external_body]
    fn push(&mut self, name: String)
        ensures
            table_name_items(*final(self)) == table_name_items(*old(self)).push(name),
    {
        self.items.push(name);
    }

    /// The names, in order.
    ///
    /// Trusted: calls `SmallVec::as_slice`, which views the items in order.
    #[verifier::external_body]
    pub fn as_slice(&self) -> (r: &[String])
        ensures
            r@ == table_name_items(*self),
    {
        self.items.as_slice()
    }

    /// The number of names.
    pub fn len(&self) -> (r: usize)
        ensures
            r == table_name_items(*self).len(),
    {
        self.as_slice().len()
    }

    /// Whether there are no names.
    pub fn is_empty(&self) -> (r: bool)
        ensures
            r == (table_name_items(*self).len() == 0),
    {
        self.as_slice().len() == 0
    }
}

/// Pairs of alias and field path, kept in a `SmallVec` with room for
/// four inline.
#[verifier::external_body]
#[derive(Debug)]
pub struct AliasMap {
    items: SmallVec<[(String, String); 4]>,
}

/// The pairs held, in order.
pub uninterp spec fn alias_items(v: AliasMap) -> Seq<(String, String)>;

impl AliasMap {
    /// An empty map.
    ///
    /// Trusted: calls `SmallVec::new`, which creates an empty vector.
    #[verifier::external_body]
    fn new() -> (r: AliasMap)
        ensures
            alias_items(r) == Seq::<(String, String)>::empty(),
    {
        AliasMap { items: SmallVec::new() }
    }

    /// Append a pair.
    ///
    /// Trusted: calls `SmallVec::push`, which appends the item at the end
    /// and keeps the others in order; its capacity-overflow panic is left
    /// unsaid, as for [`TableNames`].
    #[verifier::external_body]
    fn push(&mut self, alias: String, path: String)
        ensures
            alias_items(*final(self)) == alias_items(*old(self)).push((alias, path)),
    {
        self.items.push((alias, path));
    }

    /// The pairs, in order.
    ///
    /// Trusted: calls `SmallVec::as_slice`, which views the items in order.
    #[verifier::external_body]
    pub fn as_slice(&self) -> (r: &[(String, String)])
        ensures
            r@ == alias_items(*self),
    {
        self.items.as_slice()
    }

    /// The number of pairs.
    pub fn len(&self) -> (r: usize)
        ensures
            r == alias_items(*self).len(),
    {
        self.as_slice().len()
    }

    /// Whether there are no pairs.
    pub fn is_empty(&self) -> (r: bool)
        ensures
            r == (alias_items(*self).len() == 0),
    {
        self.as_slice().len() == 0
    }
}

// ── Metadata ───────────────────────────────────────────────────────────

/// The texts of a sequence of strings.
pub open spec fn names_view(s: Seq<String>) -> Seq<Seq<char>> {
    s.map_values(|x: String| x@)
}

/// The texts of a sequence of string pairs.
pub open spec fn pairs_view(s: Seq<(String, String)>) -> Seq<(Seq<char>, Seq<char>)> {
    s.map_values(|x: (String, String)| (x.0@, x.1@))
}

/// The table named by a source expression: a variable's name.
pub open spec fn spec_table_name(e: Expr) -> Option<Seq<char>> {
    match e {
        Expr::VarRef(v) => Some(v.node.name.value@),
        _ => None,
    }
}

/// The names of the tables of a source, left to right; a source that is
/// not a plain variable (a path, say) names no table.
pub open spec fn spec_table_names(f: FromSource) -> Seq<Seq<char>>
    decreases f,
{
    match f {
        FromSource::FromLet(fl) => match spec_table_name(*fl.node.expr) {
            Some(n) => seq![n],
            None => Seq::empty(),
        },
        FromSource::Join(j) => spec_table_names(*j.node.left) + spec_table_names(*j.node.right),
    }
}

/// The plain sources of a `FROM` tree, left to right: every `FromLet`
/// leaf, however deep in joins.
pub open spec fn from_leaves(f: FromSource) -> Seq<AstNode<FromLet>>
    decreases f,
{
    match f {
        FromSource::FromLet(fl) => seq![fl],
        FromSource::Join(j) => from_leaves(*j.node.left) + from_leaves(*j.node.right),
    }
}

/// The names of the leaves over a plain variable, in order.
pub open spec fn leaf_var_names(ls: Seq<AstNode<FromLet>>) -> Seq<Seq<char>>
    decreases ls.len(),
{
    if ls.len() == 0 {
        Seq::empty()
    } else {
        leaf_var_names(ls.drop_last()) + match *ls.last().node.expr {
            Expr::VarRef(v) => seq![v.node.name.value@],
            _ => Seq::empty(),
        }
    }
}

proof fn lemma_leaf_var_names_concat(a: Seq<AstNode<FromLet>>, b: Seq<AstNode<FromLet>>)
    ensures
        leaf_var_names(a + b) == leaf_var_names(a) + leaf_var_names(b),
    decreases b.len(),
{
    if b.len() == 0 {
        assert(a + b =~= a);
        assert(leaf_var_names(b) =~= Seq::<Seq<char>>::empty());
    } else {
        lemma_leaf_var_names_concat(a, b.drop_last());
        assert((a + b).drop_last() =~= a + b.drop_last());
    }
}

/// The table names of a `FROM` tree are the names of its sources that
/// are plain variables, each once, in the order the sources stand, left
/// to right through every join; sources of any other kind name no table.
pub proof fn law_table_names(f: FromSource)
    ensures
        spec_table_names(f) == leaf_var_names(from_leaves(f)),
        forall|i: int|
            0 <= i < from_leaves(f).len() ==> (*(#[trigger] from_leaves(f)[i]).node.expr matches Expr::VarRef(v)
                ==> spec_table_names(f).contains(v.node.name.value@)),
    decreases f,
{
    match f {
        FromSource::FromLet(fl) => {
            let none = Seq::<AstNode<FromLet>>::empty();
            let one = seq![fl];
            assert(one.drop_last() =~= none);
            assert(one.last() == fl);
            assert(leaf_var_names(none) == Seq::<Seq<char>>::empty());
            assert(from_leaves(f) == one);
            match *fl.node.expr {
                Expr::VarRef(v) => {
                    assert(leaf_var_names(one) =~= seq![v.node.name.value@]);
                },
                _ => {
                    assert(leaf_var_names(one) =~= Seq::<Seq<char>>::empty());
                },
            }
        },
        FromSource::Join(j) => {
            law_table_names(*j.node.left);
            law_table_names(*j.node.right);
            lemma_leaf_var_names_concat(from_leaves(*j.node.left), from_leaves(*j.node.right));
        },
    }
    lemma_names_of_leaves(from_leaves(f));
    assert(spec_table_names(f) == leaf_var_names(from_leaves(f)));
}

/// Each leaf over a plain variable gives its name.
proof fn lemma_names_of_leaves(ls: Seq<AstNode<FromLet>>)
    ensures
        forall|i: int|
            0 <= i < ls.len() ==> (*(#[trigger] ls[i]).node.expr matches Expr::VarRef(v)
                ==> leaf_var_names(ls).contains(v.node.name.value@)),
    decreases ls.len(),
{
    if ls.len() > 0 {
        lemma_names_of_leaves(ls.drop_last());
        assert forall|i: int|
            0 <= i < ls.len() implies (*(#[trigger] ls[i]).node.expr matches Expr::VarRef(v)
                ==> leaf_var_names(ls).contains(v.node.name.value@)) by {
            let front = leaf_var_names(ls.drop_last());
            let back = match *ls.last().node.expr {
                Expr::VarRef(v) => seq![v.node.name.value@],
                _ => Seq::<Seq<char>>::empty(),
            };
            if i < ls.len() - 1 {
                assert(ls.drop_last()[i] == ls[i]);
                if let Expr::VarRef(v) = *ls[i].node.expr {
                    let k = choose|k: int| 0 <= k < front.len() && front[k] == v.node.name.value@;
                    assert((front + back)[k] == v.node.name.value@);
                }
            } else {
                if let Expr::VarRef(v) = *ls[i].node.expr {
                    assert((front + back)[front.len() as int] == v.node.name.value@);
                }
            }
        }
    }
}

/// The field name of a path step: a variable or a string literal.
pub open spec fn step_name(st: PathStep) -> Option<Seq<char>> {
    let index = match st {
        PathStep::PathProject(pe) => Some(*pe.index),
        PathStep::PathIndex(pe) => Some(*pe.index),
        _ => None,
    };
    match index {
        Some(Expr::VarRef(v)) => Some(v.node.name.value@),
        Some(Expr::Lit(l)) => match l.node {
            Lit::CharStringLit(t) => Some(t@),
            _ => None,
        },
        _ => None,
    }
}

/// The field names of a path's steps, skipping steps without one.
pub open spec fn field_parts(steps: Seq<PathStep>) -> Seq<Seq<char>>
    decreases steps.len(),
{
    if steps.len() == 0 {
        Seq::empty()
    } else {
        field_parts(steps.drop_last()) + match step_name(steps.last()) {
            Some(n) => seq![n],
            None => Seq::empty(),
        }
    }
}

/// `parts` joined with `.`.
pub open spec fn join_dot(parts: Seq<Seq<char>>) -> Seq<char>
    decreases parts.len(),
{
    if parts.len() == 0 {
        Seq::empty()
    } else if parts.len() == 1 {
        parts[0]
    } else {
        join_dot(parts.drop_last()) + seq!['.'] + parts.last()
    }
}

/// The unnest alias that a join's right side defines: an aliased path
/// with at least one named step gives the alias and the dotted step names.
pub open spec fn own_unnest(right: FromSource) -> Seq<(Seq<char>, Seq<char>)> {
    match right {
        FromSource::FromLet(r) => match *r.node.expr {
            Expr::Path(pe) => match r.node.as_alias {
                Some(a) => if field_parts(pe.node.steps@).len() > 0 {
                    seq![(a.value@, join_dot(field_parts(pe.node.steps@)))]
                } else {
                    Seq::empty()
                },
                None => Seq::empty(),
            },
            _ => Seq::empty(),
        },
        _ => Seq::empty(),
    }
}

/// The unnest aliases of a source: for each join, its own, then those of
/// its left side, then those of its right side.
pub open spec fn spec_unnest_aliases(f: FromSource) -> Seq<(Seq<char>, Seq<char>)>
    decreases f,
{
    match f {
        FromSource::FromLet(_) => Seq::empty(),
        FromSource::Join(j) => own_unnest(*j.node.right) + spec_unnest_aliases(*j.node.left)
            + spec_unnest_aliases(*j.node.right),
    }
}

/// The joins of a `FROM` tree: each join, then the joins on its left,
/// then those on its right.
pub open spec fn joins_of(f: FromSource) -> Seq<AstNode<Join>>
    decreases f,
{
    match f {
        FromSource::FromLet(_) => Seq::empty(),
        FromSource::Join(j) => seq![j] + joins_of(*j.node.left) + joins_of(*j.node.right),
    }
}

/// The unnest aliases that the joins `js` define, each join's own, in
/// order.
pub open spec fn joins_unnest(js: Seq<AstNode<Join>>) -> Seq<(Seq<char>, Seq<char>)>
    decreases js.len(),
{
    if js.len() == 0 {
        Seq::empty()
    } else {
        joins_unnest(js.drop_last()) + own_unnest(*js.last().node.right)
    }
}

proof fn lemma_joins_unnest_concat(a: Seq<AstNode<Join>>, b: Seq<AstNode<Join>>)
    ensures
        joins_unnest(a + b) == joins_unnest(a) + joins_unnest(b),
    decreases b.len(),
{
    if b.len() == 0 {
        assert(a + b =~= a);
        assert(joins_unnest(b) =~= Seq::<(Seq<char>, Seq<char>)>::empty());
    } else {
        lemma_joins_unnest_concat(a, b.drop_last());
        assert((a + b).drop_last() =~= a + b.drop_last());
    }
}

/// The unnest aliases of a `FROM` tree are those that its joins define,
/// every join of the tree once, however deep, each join before the joins
/// under it and the left side's before the right side's.
pub proof fn law_unnest_aliases(f: FromSource)
    ensures
        spec_unnest_aliases(f) == joins_unnest(joins_of(f)),
    decreases f,
{
    match f {
        FromSource::FromLet(_) => {
            assert(joins_unnest(Seq::<AstNode<Join>>::empty()) =~= Seq::<(Seq<char>, Seq<char>)>::empty());
        },
        FromSource::Join(j) => {
            law_unnest_aliases(*j.node.left);
            law_unnest_aliases(*j.node.right);
            let one = seq![j];
            let none = Seq::<AstNode<Join>>::empty();
            assert(one.drop_last() =~= none);
            assert(joins_unnest(none) == Seq::<(Seq<char>, Seq<char>)>::empty());
            assert(joins_unnest(one) =~= own_unnest(*j.node.right));
            lemma_joins_unnest_concat(one, joins_of(*j.node.left));
            lemma_joins_unnest_concat(one + joins_of(*j.node.left), joins_of(*j.node.right));
        },
    }
}

/// The `FROM` source of a query, if it has one.
pub open spec fn query_source(q: Query) -> Option<FromSource> {
    match q.set.node {
        QuerySet::Select(sel) => match sel.node.from {
            Some(f) => Some(f.node.source),
            None => None,
        },
    }
}

/// The `WHERE` condition of a query, if it has one.
pub open spec fn query_where(q: Query) -> Option<Expr> {
    match q.set.node {
        QuerySet::Select(sel) => match sel.node.where_clause {
            Some(w) => Some(*w.node.expr),
            None => None,
        },
    }
}

/// The table name of a source expression.
pub fn extract_table_name_from_expr(expr: &Expr) -> (r: Option<String>)
    ensures
        match r {
            Some(n) => spec_table_name(*expr) == Some(n@),
            None => spec_table_name(*expr) is None,
        },
{
    match expr {
        Expr::VarRef(v) => Some(v.node.name.value.clone()),
        _ => None,
    }
}

/// Append the table names of `source` to `names`.
pub fn collect_table_names(source: &FromSource, names: &mut TableNames)
    ensures
        names_view(table_name_items(*final(names))) == names_view(table_name_items(*old(names)))
            + spec_table_names(*source),
    decreases source,
{
    match source {
        FromSource::FromLet(from_let) => {
            if let Some(name) = extract_table_name_from_expr(&from_let.node.expr) {
                names.push(name);
                proof {
                    assert(names_view(table_name_items(*names)) =~= names_view(table_name_items(*old(names)))
                        + spec_table_names(*source));
                }
            } else {
                proof {
                    assert(names_view(table_name_items(*names)) =~= names_view(table_name_items(*old(names)))
                        + spec_table_names(*source));
                }
            }
        },
        FromSource::Join(join) => {
            let ghost before = names_view(table_name_items(*names));
            collect_table_names(&join.node.left, names);
            collect_table_names(&join.node.right, names);
            proof {
                assert(names_view(table_name_items(*names)) =~= before + spec_table_names(*source));
            }
        },
    }
}

/// The field name of one path step.
fn step_field_name(step: &PathStep) -> (r: Option<String>)
    ensures
        match r {
            Some(n) => step_name(*step) == Some(n@),
            None => step_name(*step) is None,
        },
{
    let index = match step {
        PathStep::PathProject(pe) => &pe.index,
        PathStep::PathIndex(pe) => &pe.index,
        _ => {
            return None;
        },
    };
    match &**index {
        Expr::VarRef(v) => Some(v.node.name.value.clone()),
        Expr::Lit(l) => match &l.node {
            Lit::CharStringLit(t) => Some(t.clone()),
            _ => None,
        },
        _ => None,
    }
}

/// The field names of `steps`, joined with `.`.
fn dotted_field_path(steps: &Vec<PathStep>) -> (r: String)
    ensures
        r@ == join_dot(field_parts(steps@)),
{
    let mut parts: Vec<String> = Vec::new();
    let mut i: usize = 0;
    while i < steps.len()
        invariant
            0 <= i <= steps@.len(),
            names_view(parts@) == field_parts(steps@.take(i as int)),
        decreases steps@.len() - i,
    {
        let ghost before = parts@;
        if let Some(name) = step_field_name(&steps[i]) {
            parts.push(name);
        }
        proof {
            assert(steps@.take(i + 1).drop_last() =~= steps@.take(i as int));
            assert(names_view(parts@) =~= field_parts(steps@.take(i + 1)));
        }
        i = i + 1;
    }
    proof {
        assert(steps@.take(steps@.len() as int) =~= steps@);
    }
    let ghost pv = names_view(parts@);
    let mut out = String::new();
    let mut j: usize = 0;
    while j < parts.len()
        invariant
            0 <= j <= parts@.len(),
            pv == names_view(parts@),
            out@ == join_dot(pv.take(j as int)),
        decreases parts@.len() - j,
    {
        if j > 0 {
            push_char(&mut out, '.');
        }
        append_string(&mut out, &parts[j]);
        proof {
            assert(pv.take(j + 1).drop_last() =~= pv.take(j as int));
            if j == 0 {
                assert(pv.take(1)[0] == pv[0]);
                assert(out@ =~= join_dot(pv.take(1)));
            } else {
                assert(out@ =~= join_dot(pv.take(j + 1)));
            }
        }
        j = j + 1;
    }
    proof {
        assert(pv.take(pv.len() as int) =~= pv);
    }
    out
}

/// Append the unnest aliases of `source` to `aliases`.
pub fn collect_unnest_aliases(source: &FromSource, aliases: &mut AliasMap)
    ensures
        pairs_view(alias_items(*final(aliases))) == pairs_view(alias_items(*old(aliases)))
            + spec_unnest_aliases(*source),
    decreases source,
{
    match source {
        FromSource::FromLet(_) => {
            proof {
                assert(pairs_view(alias_items(*aliases)) =~= pairs_view(alias_items(*old(aliases)))
                    + spec_unnest_aliases(*source));
            }
        },
        FromSource::Join(join) => {
            let ghost before = pairs_view(alias_items(*aliases));
            if let FromSource::FromLet(right) = &*join.node.right {
                if let Expr::Path(path_expr) = &*right.node.expr {
                    if let Some(alias) = &right.node.as_alias {
                        proof {
                            crate::parsed_dql::lemma_join_dot_empty(field_parts(path_expr.node.steps@));
                        }
                        let path = dotted_field_path(&path_expr.node.steps);
                        if has_named_step(&path_expr.node.steps) {
                            aliases.push(alias.value.clone(), path);
                        }
                    }
                }
            }
            let ghost mid = pairs_view(alias_items(*aliases));
            proof {
                assert(mid =~= before + own_unnest(*join.node.right));
            }
            collect_unnest_aliases(&join.node.left, aliases);
            collect_unnest_aliases(&join.node.right, aliases);
            proof {
                assert(pairs_view(alias_items(*aliases)) =~= before + spec_unnest_aliases(*source));
            }
        },
    }
}

pub proof fn lemma_join_dot_empty(parts: Seq<Seq<char>>)
    ensures
        parts.len() == 0 ==> join_dot(parts) == Seq::<char>::empty(),
{
}

/// Whether some step of `steps` has a field name.
fn has_named_step(steps: &Vec<PathStep>) -> (r: bool)
    ensures
        r == (field_parts(steps@).len() > 0),
{
    let mut i: usize = 0;
    while i < steps.len()
        invariant
            0 <= i <= steps@.len(),
            field_parts(steps@.take(i as int)).len() == 0,
        decreases steps@.len() - i,
    {
        proof {
            assert(steps@.take(i + 1).drop_last() =~= steps@.take(i as int));
        }
        if step_field_name(&steps[i]).is_some() {
            proof {
                lemma_field_parts_grow(steps@, i as int + 1);
            }
            return true;
        }
        i = i + 1;
    }
    proof {
        assert(steps@.take(steps@.len() as int) =~= steps@);
    }
    false
}

/// Field names only accumulate along a path.
proof fn lemma_field_parts_grow(steps: Seq<PathStep>, k: int)
    requires
        0 <= k <= steps.len(),
    ensures
        field_parts(steps.take(k)).len() <= field_parts(steps).len(),
    decreases steps.len() - k,
{
    if k < steps.len() {
        lemma_field_parts_grow(steps, k + 1);
        assert(steps.take(k + 1).drop_last() =~= steps.take(k));
    } else {
        assert(steps.take(k) =~= steps);
    }
}

/// Table names and unnest aliases of a query's `FROM` clause.
pub fn extract_select_metadata(query: &Query) -> (r: (TableNames, AliasMap))
    ensures
        names_view(table_name_items(r.0)) == match query_source(*query) {
            Some(f) => spec_table_names(f),
            None => Seq::empty(),
        },
        pairs_view(alias_items(r.1)) == match query_source(*query) {
            Some(f) => spec_unnest_aliases(f),
            None => Seq::empty(),
        },
{
    let mut table_names = TableNames::new();
    let mut unnest_aliases = AliasMap::new();
    match &query.set.node {
        QuerySet::Select(select) => {
            if let Some(from) = &select.node.from {
                collect_table_names(&from.node.source, &mut table_names);
                collect_unnest_aliases(&from.node.source, &mut unnest_aliases);
            }
        },
    }
    proof {
        assert(names_view(Seq::<String>::empty()) =~= Seq::<Seq<char>>::empty());
        assert(pairs_view(Seq::<(String, String)>::empty()) =~= Seq::<(Seq<char>, Seq<char>)>::empty());
    }
    (table_names, unnest_aliases)
}

// ── The parse ──────────────────────────────────────────────────────────

/// A parsed `SELECT` with its metadata read out.
#[derive(Debug)]
pub struct ParsedDql {
    /// The whole query.
    pub ast: AstNode<TopLevelQuery>,
    /// The tables named in `FROM`, left to right.
    pub table_names: TableNames,
    /// Alias of each source that unnests a path, with the path's dotted
    /// field names (`p` to `platformData`).
    pub unnest_aliases: AliasMap,
}

/// The name of a parse error.
pub fn error_name(e: ParseError) -> (r: &'static str)
    ensures
        r@ == match e {
            ParseError::Backtrack => "Backtrack"@,
            ParseError::NodeIdsExhausted => "NodeIdsExhausted"@,
        },
{
    match e {
        ParseError::Backtrack => "Backtrack",
        ParseError::NodeIdsExhausted => "NodeIdsExhausted",
    }
}

/// `prefix` followed by `detail`.
pub fn message(prefix: &str, detail: &str) -> (r: String)
    ensures
        r@ == prefix@ + detail@,
{
    let mut out = String::new();
    append_str(&mut out, prefix);
    append_str(&mut out, detail);
    proof {
        assert(Seq::<char>::empty() + prefix@ =~= prefix@);
    }
    out
}

impl ParsedDql {
    /// Parse a `SELECT` and read out its metadata.
    ///
    /// Fails with `Parse error: ...` when the statement does not parse.
    pub fn parse(parser: &SelectParser, sql: &str) -> (r: Result<Self, String>)
        ensures
            spec_kw_ws(sql@, skip_space(sql@, 0), "SELECT"@) is None ==> (r matches Err(m) && m@
                == "Parse error: "@ + "Backtrack"@),
            r matches Ok(d) ==> {
                let q = d.ast.node.query.node;
                &&& q.set.node is Select
                &&& names_view(table_name_items(d.table_names)) == match query_source(q) {
                    Some(f) => spec_table_names(f),
                    None => Seq::empty(),
                }
                &&& pairs_view(alias_items(d.unnest_aliases)) == match query_source(q) {
                    Some(f) => spec_unnest_aliases(f),
                    None => Seq::empty(),
                }
                &&& ids_within(query_ids(d.ast.node.query), 1, d.ast.id.0 as nat)
            },
            match spec_kw_ws(sql@, skip_space(sql@, 0), "SELECT"@) {
                Some(b) => plain_body(sql@, b) is Some ==> r is Ok,
                None => true,
            },
    {
        let s = chars_of(sql);
        let mut pctx = ParseContext::new();
        let expr = match parser.parse(&s, 0, &mut pctx) {
            Ok((e, _)) => e,
            Err(e) => {
                return Err(message("Parse error: ", error_name(e)));
            },
        };
        let query_node = match expr {
            Expr::Query(q) => q,
            _ => {
                return Err(message("Expected Query, got ", "another expression"));
            },
        };
        let (table_names, unnest_aliases) = extract_select_metadata(&query_node.node);
        let ast = match pctx.node(TopLevelQuery { query: query_node }) {
            Ok(n) => n,
            Err(e) => {
                return Err(message("Parse error: ", error_name(e)));
            },
        };
        Ok(ParsedDql { ast, table_names, unnest_aliases })
    }

    /// The `WHERE` condition of the query, if it has one.
    pub fn where_clause(&self) -> (r: Option<&Expr>)
        ensures
            match r {
                Some(e) => query_where(self.ast.node.query.node) == Some(*e),
                None => query_where(self.ast.node.query.node) is None,
            },
    {
        match &self.ast.node.query.node.set.node {
            QuerySet::Select(select) => match &select.node.where_clause {
                Some(w) => Some(&*w.node.expr),
                None => None,
            },
        }
    }
}

} // verus!
