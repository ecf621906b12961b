//! The statements that the stores hand to the database, as plain values:
//! the SQL text and its positional parameters.
use vstd::prelude::*;

use crate::reconcile::AccountRow;

verus! {

/// A positional parameter of a statement.
#[derive(Clone, Debug, PartialEq, Eq)]
pub enum SqlParam {
    Int(i64),
    Text(String),
    Blob(Vec<u8>),
}

/// A statement with its positional parameters, in order.
#[derive(Clone, Debug)]
pub struct SqlStatement {
    pub sql: String,
    pub params: Vec<SqlParam>,
}

/// A parameter as a mathematical value.
pub enum ParamView {
    Int(i64),
    Text(Seq<char>),
    Blob(Seq<u8>),
}

pub open spec fn param_view(p: SqlParam) -> ParamView {
    match p {
        SqlParam::Int(i) => ParamView::Int(i),
        SqlParam::Text(s) => ParamView::Text(s@),
        SqlParam::Blob(b) => ParamView::Blob(b@),
    }
}

/// A statement as its SQL text and the views of its parameters.
pub open spec fn statement_view(st: SqlStatement) -> (Seq<char>, Seq<ParamView>) {
    (st.sql@, st.params@.map_values(|p: SqlParam| param_view(p)))
}

pub open spec fn statement_views(v: Seq<SqlStatement>) -> Seq<(Seq<char>, Seq<ParamView>)> {
    v.map_values(|st: SqlStatement| statement_view(st))
}

/// One exchange with the database: the statement handed over, whether the
/// database accepted it, and the rows it returned, each as its values.
pub struct Exchange {
    pub statement: (Seq<char>, Seq<ParamView>),
    pub accepted: bool,
    pub rows: Seq<Seq<ParamView>>,
}

/// An exchange that returns no rows.
pub open spec fn write_exchange(statement: (Seq<char>, Seq<ParamView>), accepted: bool) -> Exchange {
    Exchange { statement, accepted, rows: Seq::empty() }
}

/// The exchanges appended to `before` to give `after`.
pub open spec fn added(before: Seq<Exchange>, after: Seq<Exchange>) -> Seq<Exchange> {
    after.subrange(before.len() as int, after.len() as int)
}

/// Whether `after` extends `before`.
pub open spec fn extends(before: Seq<Exchange>, after: Seq<Exchange>) -> bool {
    before.len() <= after.len() && after.subrange(0, before.len() as int) == before
}

pub proof fn lemma_extends_push(a: Seq<Exchange>, e: Exchange)
    ensures
        extends(a, a.push(e)),
        added(a, a.push(e)) == seq![e],
{
    assert(a.push(e).subrange(0, a.len() as int) =~= a);
    assert(added(a, a.push(e)) =~= seq![e]);
}

pub proof fn lemma_extends_trans(a: Seq<Exchange>, b: Seq<Exchange>, c: Seq<Exchange>)
    requires
        extends(a, b),
        extends(b, c),
    ensures
        extends(a, c),
        added(a, c) == added(a, b) + added(b, c),
{
    assert(c.subrange(0, a.len() as int) =~= c.subrange(0, b.len() as int).subrange(
        0,
        a.len() as int,
    ));
    assert(added(a, c) =~= added(a, b) + added(b, c));
}

pub open spec fn int_rows(v: Seq<i64>) -> Seq<Seq<ParamView>> {
    v.map_values(|i: i64| seq![ParamView::Int(i)])
}

pub open spec fn blob_rows(v: Seq<Vec<u8>>) -> Seq<Seq<ParamView>> {
    v.map_values(|b: Vec<u8>| seq![ParamView::Blob(b@)])
}

pub open spec fn id_text_rows(v: Seq<(i64, String)>) -> Seq<Seq<ParamView>> {
    v.map_values(|p: (i64, String)| seq![ParamView::Int(p.0), ParamView::Text(p.1@)])
}

pub open spec fn account_rows(v: Seq<AccountRow>) -> Seq<Seq<ParamView>> {
    v.map_values(
        |a: AccountRow|
            seq![
                ParamView::Int(a.id),
                ParamView::Text(a.name@),
                ParamView::Text(a.password@),
                ParamView::Int(a.last_login as i64),
            ],
    )
}

/// A statement without parameters.
pub fn plain_statement(sql: &str) -> (r: SqlStatement)
    ensures
        statement_view(r) == (sql@, Seq::<ParamView>::empty()),
{
    let r = SqlStatement { sql: String::from_str(sql), params: Vec::new() };
    assert(statement_view(r).1 =~= Seq::<ParamView>::empty());
    r
}

/// A statement with one integer parameter.
pub fn int_statement(sql: &str, i: i64) -> (r: SqlStatement)
    ensures
        statement_view(r) == (sql@, seq![ParamView::Int(i)]),
{
    let r = SqlStatement { sql: String::from_str(sql), params: vec![SqlParam::Int(i)] };
    assert(statement_view(r).1 =~= seq![ParamView::Int(i)]);
    r
}

} // verus!
