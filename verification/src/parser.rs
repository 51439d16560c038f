//! The single entry point for every query: `SELECT` first, then DML.
use crate::dml::parsed_dml::{kind_matches, spec_dml_start, DmlQueryParser, ParsedDml};
use crate::dql::select_parser::{plain_body, SelectParser};
use crate::expr::ExprChain;
use crate::parse_context::ParseContext;
use crate::parsed_dql::{error_name, message, ParsedDql};
use crate::text::{chars_of, skip_space, spec_kw_ws};
use vstd::prelude::*;

verus! {

/// Result of parsing any query.
#[derive(Debug)]
pub enum ParsedQuery {
    Select(ParsedDql),
    Dml(ParsedDml),
}

/// Parser of any query. Stateless: created once, reused.
pub struct WinnowParser {
    chain: ExprChain,
    select_parser: SelectParser,
}

impl WinnowParser {
    pub fn new() -> (r: Self) {
        WinnowParser { chain: ExprChain::new(), select_parser: SelectParser::new() }
    }

    /// Parse a query: as a `SELECT` when that succeeds, else as a DML
    /// statement when one starts the input; otherwise fail with
    /// `Failed to parse query: ` and the query.
    pub fn parse(&self, sql: &str) -> (r: Result<ParsedQuery, String>)
        ensures
            r matches Ok(ParsedQuery::Dml(d)) ==> spec_dml_start(sql@, 0) matches Some((k, q))
                && kind_matches(d, k),
            r matches Ok(ParsedQuery::Select(d)) ==> spec_kw_ws(sql@, skip_space(sql@, 0), "SELECT"@)
                is Some,
            spec_kw_ws(sql@, skip_space(sql@, 0), "SELECT"@) is None && spec_dml_start(sql@, 0) is None
                ==> (r matches Err(m) && m@ == "Failed to parse query: "@ + sql@),
            match spec_kw_ws(sql@, skip_space(sql@, 0), "SELECT"@) {
                Some(b) => plain_body(sql@, b) is Some ==> (r matches Ok(q) && q is Select),
                None => true,
            },
    {
        if let Ok(select) = self.try_select(sql) {
            return Ok(select);
        }
        let mut pctx = ParseContext::new();
        if let Some(result) = self.try_dml(sql, &mut pctx) {
            return result;
        }
        Err(message("Failed to parse query: ", sql))
    }

    /// Parse `sql` as DML; none when it is not DML.
    fn try_dml(&self, sql: &str, pctx: &mut ParseContext) -> (r: Option<Result<ParsedQuery, String>>)
        ensures
            r is None <==> spec_dml_start(sql@, 0) is None,
            r matches Some(Ok(q)) ==> q matches ParsedQuery::Dml(d) && spec_dml_start(sql@, 0) matches Some(
                (k, e),
            ) && kind_matches(d, k),
    {
        let s = chars_of(sql);
        let parser = DmlQueryParser::new(&self.chain);
        match parser.parse(&s, 0, pctx) {
            Some(Ok((dml, _))) => Some(Ok(ParsedQuery::Dml(dml))),
            Some(Err(e)) => Some(Err(message("DML parse error: ", error_name(e)))),
            None => None,
        }
    }

    /// Parse `sql` as a `SELECT`.
    fn try_select(&self, sql: &str) -> (r: Result<ParsedQuery, String>)
        ensures
            r matches Ok(q) ==> q is Select,
            spec_kw_ws(sql@, skip_space(sql@, 0), "SELECT"@) is None ==> r is Err,
            match spec_kw_ws(sql@, skip_space(sql@, 0), "SELECT"@) {
                Some(b) => plain_body(sql@, b) is Some ==> (r matches Ok(q) && q is Select),
                None => true,
            },
    {
        match ParsedDql::parse(&self.select_parser, sql) {
            Ok(d) => Ok(ParsedQuery::Select(d)),
            Err(m) => Err(m),
        }
    }
}

} // verus!
