//! Grids as JSON: `{"rows": .., "cols": .., "cells": [..]}`, the cells in
//! row-major order, each a string or `null`.

use vstd::prelude::*;
use json::JsonValue;
use crate::document::{decode, encode, CellEntry, DocumentModel, EntryModel, GridDocument};
use crate::error::EditorError;
use crate::grid::{cell_model, GridModel, TileGrid};
use crate::json_value::{
    digits_before, has_long_digit_run, json_count, json_dump, json_dumped, json_from_count, json_from_names, json_insert,
    json_is_array, json_is_null, json_is_object, json_item_ref, json_items, json_member, json_member_ref,
    json_parse, json_parsed, json_text, json_text_of, MAX_DIGIT_RUN,
};

verus! {

/// The key under which a document holds its number of rows.
pub open spec fn rows_key() -> Seq<char> {
    "rows"@
}

/// The key under which a document holds its number of columns.
pub open spec fn cols_key() -> Seq<char> {
    "cols"@
}

/// The key under which a document holds its cells.
pub open spec fn cells_key() -> Seq<char> {
    "cells"@
}

/// The three keys differ from one another.
pub proof fn lemma_keys_differ()
    ensures
        rows_key() != cols_key(),
        rows_key() != cells_key(),
        cols_key() != cells_key(),
{
    reveal_strlit("rows");
    reveal_strlit("cols");
    reveal_strlit("cells");
    assert("rows"@[0] != "cols"@[0]);
    assert("rows"@.len() != "cells"@.len());
    assert("cols"@.len() != "cells"@.len());
}

/// How a JSON value reads as a cell entry: `null` as an unset cell, a string
/// as a name, and anything else as foreign.
pub open spec fn entry_read(value: JsonValue) -> EntryModel {
    if json_is_null(value) {
        EntryModel::Null
    } else {
        match json_text(value) {
            Some(text) => EntryModel::Name(text),
            None => EntryModel::Other,
        }
    }
}

/// How a JSON value reads as a number of rows or columns.
pub open spec fn count_read(value: JsonValue) -> Option<nat> {
    match json_count(value) {
        Some(n) => Some(n as nat),
        None => None,
    }
}

/// How a JSON value reads as a document. A dimension is present where the
/// key leads to a count, the cells where the key leads to an array.
pub open spec fn document_read(value: JsonValue) -> DocumentModel {
    let list = json_member(value, cells_key());
    DocumentModel {
        rows: count_read(json_member(value, rows_key())),
        cols: count_read(json_member(value, cols_key())),
        cells: if json_is_array(list) {
            Some(json_items(list).map_values(|item: JsonValue| entry_read(item)))
        } else {
            None
        },
    }
}

/// What loading a grid from a text gives. A text with more than
/// [`MAX_DIGIT_RUN`] digits in a row is taken for a malformed document
/// unread, and so is a text that is no JSON; any other is judged by the
/// value it parses to.
pub open spec fn decode_text(text: Seq<char>) -> Result<GridModel, EditorError> {
    if has_long_digit_run(text) {
        Err(EditorError::MalformedDocument)
    } else {
        match json_parsed(text) {
            Some(value) => decode(document_read(value)),
            None => Err(EditorError::MalformedDocument),
        }
    }
}

/// Whether a text holds more than [`MAX_DIGIT_RUN`] digits in a row.
pub fn text_has_long_digit_run(text: &str) -> (r: bool)
    ensures
        r == has_long_digit_run(text@),
{
    let mut run: usize = 0;
    for c in it: text.chars()
        invariant
            it.seq() == text@,
            run == digits_before(text@, it.index() as int),
            forall|end: int| 0 <= end <= it.index() ==> #[trigger] digits_before(text@, end) <= MAX_DIGIT_RUN,
    {
        if '0' <= c && c <= '9' {
            run += 1;
            if run > MAX_DIGIT_RUN {
                assert(digits_before(text@, it.index() + 1) == run);
                return true;
            }
        } else {
            run = 0;
        }
    }
    false
}

/// A JSON value that reads as the saved form of a well-formed grid loads as
/// that grid.
pub proof fn law_json_round_trip(value: JsonValue, grid: GridModel)
    requires
        grid.wf(),
        document_read(value) == encode(grid),
    ensures
        decode(document_read(value)) == Ok::<GridModel, EditorError>(grid),
{
    crate::document::law_round_trip(grid);
}

/// Reads one member of a cell list.
pub fn entry_from_json(value: &JsonValue) -> (entry: CellEntry)
    ensures
        entry@ == entry_read(*value),
{
    if value.is_null() {
        CellEntry::Null
    } else {
        match json_text_of(value) {
            Some(text) => CellEntry::Name(text),
            None => CellEntry::Other,
        }
    }
}

impl GridDocument {
    /// Reads a JSON value as a document, field by field. Nothing is rejected
    /// here: what is missing or of the wrong kind shows in the result.
    pub fn from_json(value: &JsonValue) -> (doc: GridDocument)
        ensures
            doc@ == document_read(*value),
    {
        let rows = json_member_ref(value, "rows").as_usize();
        let cols = json_member_ref(value, "cols").as_usize();
        let list = json_member_ref(value, "cells");
        let cells = if list.is_array() {
            let count: usize = list.len();
            let mut entries: Vec<CellEntry> = Vec::new();
            let mut i: usize = 0;
            while i < count
                invariant
                    json_is_array(*list),
                    count == json_items(*list).len(),
                    i <= count,
                    entries@.len() == i,
                    forall|k: int|
                        0 <= k < i ==> (#[trigger] entries@[k])@ == entry_read(json_items(*list)[k]),
                decreases count - i,
            {
                let entry = entry_from_json(json_item_ref(list, i));
                entries.push(entry);
                i += 1;
            }
            assert(entries@.map_values(|e: CellEntry| e@) =~= json_items(*list).map_values(
                |item: JsonValue| entry_read(item),
            ));
            Some(entries)
        } else {
            None
        };
        GridDocument { rows, cols, cells }
    }
}

impl TileGrid {
    /// This grid as a JSON object with the keys `rows`, `cols` and `cells`,
    /// in that order.
    pub fn to_json(&self) -> (value: JsonValue)
        ensures
            json_is_object(value),
            document_read(value) == encode(self@),
    {
        let stored = self.stored_cells();
        let mut names: Vec<Option<String>> = Vec::new();
        let mut i: usize = 0;
        while i < stored.len()
            invariant
                i <= stored@.len(),
                names@.len() == i,
                forall|k: int| 0 <= k < i ==> cell_model(#[trigger] names@[k]) == cell_model(stored@[k]),
            decreases stored@.len() - i,
        {
            let name = match &stored[i] {
                Some(name) => Some(name.clone()),
                None => None,
            };
            names.push(name);
            i += 1;
        }
        let list = json_from_names(names);
        let mut value = JsonValue::new_object();
        json_insert(&mut value, "rows", json_from_count(self.rows()));
        json_insert(&mut value, "cols", json_from_count(self.cols()));
        json_insert(&mut value, "cells", list);
        proof {
            lemma_keys_differ();
            assert(json_member(value, cells_key()) == list);
            assert(json_items(list).map_values(|item: JsonValue| entry_read(item))
                =~= encode(self@).cells->Some_0);
        }
        value
    }

    /// Loads a grid from a JSON value.
    pub fn from_json(value: &JsonValue) -> (r: Result<TileGrid, EditorError>)
        ensures
            match r {
                Ok(grid) => grid.wf() && decode(document_read(*value)) == Ok::<GridModel, EditorError>(
                    grid@,
                ),
                Err(e) => decode(document_read(*value)) == Err::<GridModel, EditorError>(e),
            },
    {
        let doc = GridDocument::from_json(value);
        TileGrid::deserialize(&doc)
    }

    /// This grid as compact JSON text.
    pub fn to_text(&self) -> (text: String)
        ensures
            exists|value: JsonValue|
                document_read(value) == encode(self@) && text@ == #[trigger] json_dumped(value),
    {
        let value = self.to_json();
        json_dump(&value)
    }

    /// Loads a grid from JSON text. A text with more than [`MAX_DIGIT_RUN`]
    /// digits in a row is refused before it is parsed.
    pub fn from_text(text: &str) -> (r: Result<TileGrid, EditorError>)
        ensures
            match r {
                Ok(grid) => grid.wf() && decode_text(text@) == Ok::<GridModel, EditorError>(grid@),
                Err(e) => decode_text(text@) == Err::<GridModel, EditorError>(e),
            },
    {
        if text_has_long_digit_run(text) {
            return Err(EditorError::MalformedDocument);
        }
        match json_parse(text) {
            Ok(value) => TileGrid::from_json(&value),
            Err(_) => Err(EditorError::MalformedDocument),
        }
    }
}

} // verus!
