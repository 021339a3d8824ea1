//! Rows as the cluster returns them, and how they are read as facts.

use crate::error::{Cause, Column, Fault};
use crate::fact::{Fact, FactView};
use crate::key::Key;
use vstd::prelude::*;

verus! {

/// What a row holds in one column.
#[derive(Debug, PartialEq, Eq)]
pub enum Cell {
    /// The row has no such column.
    Missing,
    /// The column holds no value.
    Null,
    /// The column holds an identifier.
    Id(Key),
    /// The column holds text.
    Text(String),
}

/// What a `Cell` holds, as plain values.
pub enum CellView {
    Missing,
    Null,
    Id(u128),
    Text(Seq<char>),
}

impl View for Cell {
    type V = CellView;

    open spec fn view(&self) -> CellView {
        match self {
            Cell::Missing => CellView::Missing,
            Cell::Null => CellView::Null,
            Cell::Id(k) => CellView::Id(k@),
            Cell::Text(s) => CellView::Text(s@),
        }
    }
}

impl Clone for Cell {
    fn clone(&self) -> (copy: Cell)
        ensures
            copy@ == self@,
    {
        match self {
            Cell::Missing => Cell::Missing,
            Cell::Null => Cell::Null,
            Cell::Id(k) => Cell::Id(*k),
            Cell::Text(s) => Cell::Text(s.clone()),
        }
    }
}

/// One row of the fact table, column by column.
#[derive(Debug, PartialEq, Eq)]
pub struct Row {
    pub key: Cell,
    pub fact: Cell,
    pub kind: Cell,
}

/// What a `Row` holds, as plain values.
pub struct RowView {
    pub key: CellView,
    pub fact: CellView,
    pub kind: CellView,
}

impl View for Row {
    type V = RowView;

    open spec fn view(&self) -> RowView {
        RowView { key: self.key@, fact: self.fact@, kind: self.kind@ }
    }
}

impl Clone for Row {
    fn clone(&self) -> (copy: Row)
        ensures
            copy@ == self@,
    {
        Row { key: self.key.clone(), fact: self.fact.clone(), kind: self.kind.clone() }
    }
}

/// The identifier in `cell`, or why `column` cannot be read as one.
pub open spec fn id_of(cell: CellView, column: Column) -> Result<u128, Cause> {
    match cell {
        CellView::Id(k) => Ok(k),
        CellView::Missing => Err(Cause::Serialization { column, fault: Fault::Missing }),
        CellView::Null => Err(Cause::Serialization { column, fault: Fault::Null }),
        CellView::Text(_) => Err(Cause::Serialization { column, fault: Fault::WrongType }),
    }
}

/// The text in `cell`, or why `column` cannot be read as text.
pub open spec fn text_of(cell: CellView, column: Column) -> Result<Seq<char>, Cause> {
    match cell {
        CellView::Text(s) => Ok(s),
        CellView::Missing => Err(Cause::Serialization { column, fault: Fault::Missing }),
        CellView::Null => Err(Cause::Serialization { column, fault: Fault::Null }),
        CellView::Id(_) => Err(Cause::Serialization { column, fault: Fault::WrongType }),
    }
}

/// The key of a row, or the fault in its key column.
pub open spec fn key_of_row(row: RowView) -> Result<u128, Cause> {
    id_of(row.key, Column::Key)
}

/// The fact in a row, or the fault in the first column that cannot be
/// read, in the order key, fact, kind.
pub open spec fn fact_of_row(row: RowView) -> Result<FactView, Cause> {
    match id_of(row.key, Column::Key) {
        Err(c) => Err(c),
        Ok(key) => match text_of(row.fact, Column::Fact) {
            Err(c) => Err(c),
            Ok(fact) => match text_of(row.kind, Column::Kind) {
                Err(c) => Err(c),
                Ok(kind) => Ok(FactView { key, fact, kind }),
            },
        },
    }
}

/// The row that holds a fact in full.
pub open spec fn row_of_fact(fact: FactView) -> RowView {
    RowView {
        key: CellView::Id(fact.key),
        fact: CellView::Text(fact.fact),
        kind: CellView::Text(fact.kind),
    }
}

/// The row that holds a key and nothing else.
pub open spec fn row_of_key(key: u128) -> RowView {
    RowView { key: CellView::Id(key), fact: CellView::Missing, kind: CellView::Missing }
}

/// The keys of `rows` in their order, or the fault of the first row whose
/// key cannot be read.
pub open spec fn keys_of_rows(rows: Seq<RowView>) -> Result<Seq<u128>, Cause>
    decreases rows.len(),
{
    if rows.len() == 0 {
        Ok(Seq::empty())
    } else {
        match keys_of_rows(rows.drop_last()) {
            Err(c) => Err(c),
            Ok(keys) => match key_of_row(rows.last()) {
                Err(c) => Err(c),
                Ok(k) => Ok(keys.push(k)),
            },
        }
    }
}

/// The views of a sequence of rows.
pub open spec fn rows_view(rows: Seq<Row>) -> Seq<RowView> {
    rows.map_values(|r: Row| r@)
}

/// The values of a sequence of keys.
pub open spec fn keys_view(keys: Seq<Key>) -> Seq<u128> {
    keys.map_values(|k: Key| k@)
}

impl Cell {
    /// The identifier in the cell, or why `column` cannot be read as one.
    pub fn to_id(&self, column: Column) -> (r: Result<Key, Cause>)
        ensures
            match id_of(self@, column) {
                Ok(k) => r matches Ok(key) && key@ == k,
                Err(c) => r matches Err(e) && e == c,
            },
    {
        match self {
            Cell::Id(k) => Ok(*k),
            Cell::Missing => Err(Cause::Serialization { column, fault: Fault::Missing }),
            Cell::Null => Err(Cause::Serialization { column, fault: Fault::Null }),
            Cell::Text(_) => Err(Cause::Serialization { column, fault: Fault::WrongType }),
        }
    }

    /// The text in the cell, or why `column` cannot be read as text.
    pub fn to_text(&self, column: Column) -> (r: Result<String, Cause>)
        ensures
            match text_of(self@, column) {
                Ok(s) => r matches Ok(text) && text@ == s,
                Err(c) => r matches Err(e) && e == c,
            },
    {
        match self {
            Cell::Text(s) => Ok(s.clone()),
            Cell::Missing => Err(Cause::Serialization { column, fault: Fault::Missing }),
            Cell::Null => Err(Cause::Serialization { column, fault: Fault::Null }),
            Cell::Id(_) => Err(Cause::Serialization { column, fault: Fault::WrongType }),
        }
    }
}

impl Row {
    /// The row that holds `fact` in full.
    pub fn from_fact(fact: &Fact) -> (row: Row)
        ensures
            row@ == row_of_fact(fact@),
    {
        Row {
            key: Cell::Id(fact.key),
            fact: Cell::Text(fact.fact.clone()),
            kind: Cell::Text(fact.kind.clone()),
        }
    }

    /// The row that holds `key` and nothing else.
    pub fn from_key(key: Key) -> (row: Row)
        ensures
            row@ == row_of_key(key@),
    {
        Row { key: Cell::Id(key), fact: Cell::Missing, kind: Cell::Missing }
    }

    /// The key of the row, or the fault in its key column.
    pub fn to_key(&self) -> (r: Result<Key, Cause>)
        ensures
            match key_of_row(self@) {
                Ok(k) => r matches Ok(key) && key@ == k,
                Err(c) => r matches Err(e) && e == c,
            },
    {
        self.key.to_id(Column::Key)
    }

    /// The fact in the row, or the fault in the first column that cannot
    /// be read.
    pub fn to_fact(&self) -> (r: Result<Fact, Cause>)
        ensures
            match fact_of_row(self@) {
                Ok(v) => r matches Ok(fact) && fact@ == v,
                Err(c) => r matches Err(e) && e == c,
            },
    {
        let key = match self.key.to_id(Column::Key) {
            Ok(k) => k,
            Err(c) => {
                return Err(c);
            },
        };
        let fact = match self.fact.to_text(Column::Fact) {
            Ok(s) => s,
            Err(c) => {
                return Err(c);
            },
        };
        let kind = match self.kind.to_text(Column::Kind) {
            Ok(s) => s,
            Err(c) => {
                return Err(c);
            },
        };
        Ok(Fact { key, fact, kind })
    }
}

/// Reading back the row of a fact gives the fact.
pub proof fn lemma_row_round_trip(fact: FactView)
    ensures
        fact_of_row(row_of_fact(fact)) == Ok::<FactView, Cause>(fact),
        key_of_row(row_of_fact(fact)) == Ok::<u128, Cause>(fact.key),
        key_of_row(row_of_key(fact.key)) == Ok::<u128, Cause>(fact.key),
{
}

} // verus!
