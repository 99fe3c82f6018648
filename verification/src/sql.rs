//! SQL statements with the values that are bound to their placeholders.

use crate::ids::{Timestamp, Uuid};
use crate::json::json_clone;
use vstd::prelude::*;

verus! {

/// A value that is bound to a placeholder.
#[derive(Debug, PartialEq)]
pub enum Param {
    Null,
    Flag(bool),
    Number(u32),
    Text(String),
    Uuid(Uuid),
    Time(Timestamp),
    Json(serde_json::Value),
}

/// What a bound value is.
pub enum ParamView {
    Null,
    Flag(bool),
    Number(u32),
    Text(Seq<char>),
    Uuid(Uuid),
    Time(Timestamp),
    Json(serde_json::Value),
}

impl View for Param {
    type V = ParamView;

    open spec fn view(&self) -> ParamView {
        match *self {
            Param::Null => ParamView::Null,
            Param::Flag(flag) => ParamView::Flag(flag),
            Param::Number(number) => ParamView::Number(number),
            Param::Text(text) => ParamView::Text(text@),
            Param::Uuid(id) => ParamView::Uuid(id),
            Param::Time(time) => ParamView::Time(time),
            Param::Json(json) => ParamView::Json(json),
        }
    }
}

impl ParamView {
    /// A text, or null where there is none.
    pub open spec fn of_text(text: Option<String>) -> ParamView {
        match text {
            Some(text) => ParamView::Text(text@),
            None => ParamView::Null,
        }
    }

    /// A flag, or null where there is none.
    pub open spec fn of_flag(flag: Option<bool>) -> ParamView {
        match flag {
            Some(flag) => ParamView::Flag(flag),
            None => ParamView::Null,
        }
    }

    /// A number, or null where there is none.
    pub open spec fn of_number(number: Option<u32>) -> ParamView {
        match number {
            Some(number) => ParamView::Number(number),
            None => ParamView::Null,
        }
    }
}

impl Param {
    pub fn text(text: &str) -> (value: Param)
        ensures
            value@ == ParamView::Text(text@),
    {
        Param::Text(text.to_owned())
    }

    pub fn optional_text(text: &Option<String>) -> (value: Param)
        ensures
            value@ == ParamView::of_text(*text),
    {
        match text {
            Some(text) => Param::Text(text.clone()),
            None => Param::Null,
        }
    }

    pub fn optional_flag(flag: Option<bool>) -> (value: Param)
        ensures
            value@ == ParamView::of_flag(flag),
    {
        match flag {
            Some(flag) => Param::Flag(flag),
            None => Param::Null,
        }
    }

    pub fn optional_number(number: Option<u32>) -> (value: Param)
        ensures
            value@ == ParamView::of_number(number),
    {
        match number {
            Some(number) => Param::Number(number),
            None => Param::Null,
        }
    }

    pub fn json(json: &serde_json::Value) -> (value: Param)
        ensures
            value@ == ParamView::Json(*json),
    {
        Param::Json(json_clone(json))
    }
}

/// A statement, ready to be sent to the database.
#[derive(Debug, PartialEq)]
pub struct Statement {
    /// The text, with a question mark for each bound value.
    pub sql: String,
    /// The bound values, in the order of their placeholders.
    pub values: Vec<Param>,
}

/// What a statement is.
#[verifier::ext_equal]
pub struct StatementView {
    pub sql: Seq<char>,
    pub values: Seq<ParamView>,
}

impl View for Statement {
    type V = StatementView;

    open spec fn view(&self) -> StatementView {
        StatementView { sql: self.sql@, values: self.values@.map_values(|value: Param| value@) }
    }
}

impl Statement {
    /// A statement without placeholders so far.
    pub fn new(sql: &str) -> (statement: Statement)
        ensures
            statement@ == (StatementView { sql: sql@, values: Seq::empty() }),
    {
        let statement = Statement { sql: sql.to_owned(), values: Vec::new() };
        assert(statement@ =~= StatementView { sql: sql@, values: Seq::empty() });
        statement
    }

    /// Appends a piece of text.
    pub fn push(&mut self, sql: &str)
        ensures
            final(self)@ == (StatementView { sql: old(self)@.sql + sql@, ..old(self)@ }),
    {
        self.sql.append(sql);
    }

    /// Binds a value to the next placeholder.
    pub fn bind(self, value: Param) -> (statement: Statement)
        ensures
            statement@ == (StatementView { values: self@.values.push(value@), ..self@ }),
    {
        let mut values = self.values;
        values.push(value);
        let statement = Statement { sql: self.sql, values };
        assert(statement@ =~= StatementView { values: self@.values.push(value@), ..self@ });
        statement
    }

    /// Appends a placeholder and binds a value to it.
    pub fn push_bind(&mut self, value: Param)
        ensures
            final(self)@ == (StatementView {
                sql: old(self)@.sql + "?"@,
                values: old(self)@.values.push(value@),
            }),
    {
        self.sql.append("?");
        self.values.push(value);
        assert(self@.values =~= old(self)@.values.push(value@));
    }
}

} // verus!
