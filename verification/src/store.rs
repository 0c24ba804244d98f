//! What is asked of the record store, and what it answers.
//!
//! The store itself is outside this library. A handler hands out one
//! statement; whoever holds the connection runs it and hands back the
//! outcome.

use crate::entity::{Record, RecordView};
use vstd::prelude::*;

verus! {

/// How a statement is run, which decides the shape of its outcome.
#[derive(Debug, Clone, Copy, PartialEq, Eq, Structural)]
pub enum Call {
    /// Run it and report how many rows it touched.
    Execute,
    /// Run it and report the row it found, if any.
    QueryOne,
    /// Run it and report every row it found.
    QueryAll,
}

/// One parameter of a statement.
#[derive(Debug, Clone, PartialEq, Eq)]
pub enum Param {
    Text(String),
    Int(i32),
}

/// The mathematical content of a parameter.
pub enum ParamView {
    Text(Seq<char>),
    Int(i32),
}

impl View for Param {
    type V = ParamView;

    open spec fn view(&self) -> ParamView {
        match self {
            Param::Text(s) => ParamView::Text(s@),
            Param::Int(n) => ParamView::Int(*n),
        }
    }
}

impl DeepView for Param {
    type V = ParamView;

    open spec fn deep_view(&self) -> ParamView {
        self@
    }
}

/// One parameterized statement.
#[derive(Debug, Clone, PartialEq, Eq)]
pub struct Statement {
    pub call: Call,
    pub sql: String,
    pub params: Vec<Param>,
}

/// The mathematical content of a statement.
pub struct StatementView {
    pub call: Call,
    pub sql: Seq<char>,
    pub params: Seq<ParamView>,
}

impl View for Statement {
    type V = StatementView;

    open spec fn view(&self) -> StatementView {
        StatementView { call: self.call, sql: self.sql@, params: self.params.deep_view() }
    }
}

/// What came of running a statement.
#[derive(Debug, Clone, PartialEq, Eq)]
pub enum Outcome {
    /// No connection to the store could be had.
    Unavailable,
    /// The store refused the statement or failed while running it.
    Failed,
    /// An `Execute` ran and touched this many rows.
    Affected(u64),
    /// A `QueryOne` ran and found this row, or none.
    Row(Option<Record>),
    /// A `QueryAll` ran and found these rows, in the store's order.
    Rows(Vec<Record>),
}

/// The mathematical content of an outcome.
pub enum OutcomeView {
    Unavailable,
    Failed,
    Affected(u64),
    Row(Option<RecordView>),
    Rows(Seq<RecordView>),
}

impl View for Outcome {
    type V = OutcomeView;

    open spec fn view(&self) -> OutcomeView {
        match self {
            Outcome::Unavailable => OutcomeView::Unavailable,
            Outcome::Failed => OutcomeView::Failed,
            Outcome::Affected(n) => OutcomeView::Affected(*n),
            Outcome::Row(row) => OutcomeView::Row(row.deep_view()),
            Outcome::Rows(rows) => OutcomeView::Rows(rows.deep_view()),
        }
    }
}

} // verus!
