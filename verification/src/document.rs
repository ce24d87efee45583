use vstd::prelude::*;
use crate::error::EditorError;
use crate::grid::{cell_model, CellModel, GridModel, TileGrid};

verus! {

/// One entry of a document's cell list.
#[derive(Debug, PartialEq, Eq)]
pub enum CellEntry {
    /// The entry is null: the cell is unset.
    Null,
    /// The entry is a string: the cell holds that icon name.
    Name(String),
    /// The entry is something else, which no cell can hold.
    Other,
}

/// The saved form of a grid, as read: each field may be missing.
///
/// A dimension that is present is a count; one that was written as anything
/// else than a non-negative whole number counts as missing.
#[derive(Debug, PartialEq, Eq)]
pub struct GridDocument {
    pub rows: Option<usize>,
    pub cols: Option<usize>,
    /// The cells in row-major order.
    pub cells: Option<Vec<CellEntry>>,
}

/// The mathematical value of a [`CellEntry`].
pub enum EntryModel {
    Null,
    Name(Seq<char>),
    Other,
}

/// The mathematical value of a [`GridDocument`].
pub struct DocumentModel {
    pub rows: Option<nat>,
    pub cols: Option<nat>,
    pub cells: Option<Seq<EntryModel>>,
}

impl View for CellEntry {
    type V = EntryModel;

    open spec fn view(&self) -> EntryModel {
        match self {
            CellEntry::Null => EntryModel::Null,
            CellEntry::Name(name) => EntryModel::Name(name@),
            CellEntry::Other => EntryModel::Other,
        }
    }
}

impl View for GridDocument {
    type V = DocumentModel;

    open spec fn view(&self) -> DocumentModel {
        DocumentModel {
            rows: match self.rows {
                Some(n) => Some(n as nat),
                None => None,
            },
            cols: match self.cols {
                Some(n) => Some(n as nat),
                None => None,
            },
            cells: match self.cells {
                Some(entries) => Some(entries@.map_values(|e: CellEntry| e@)),
                None => None,
            },
        }
    }
}

/// The entry that stands for a cell.
pub open spec fn entry_of(cell: CellModel) -> EntryModel {
    match cell {
        Some(name) => EntryModel::Name(name),
        None => EntryModel::Null,
    }
}

/// The cell that an entry stands for; an entry that is neither a name nor
/// null stands for none, and reads as unset here.
pub open spec fn cell_of(entry: EntryModel) -> CellModel {
    match entry {
        EntryModel::Name(name) => Some(name),
        _ => None,
    }
}

/// The document that saves a grid.
pub open spec fn encode(grid: GridModel) -> DocumentModel {
    DocumentModel {
        rows: Some(grid.rows),
        cols: Some(grid.cols),
        cells: Some(grid.cells.map_values(|c: CellModel| entry_of(c))),
    }
}

impl DocumentModel {
    /// All three fields are present, both dimensions are positive, and there
    /// are as many entries as the dimensions ask for.
    pub open spec fn well_shaped(self) -> bool {
        &&& self.rows matches Some(rows)
        &&& self.cols matches Some(cols)
        &&& self.cells matches Some(cells)
        &&& rows >= 1
        &&& cols >= 1
        &&& cells.len() == rows * cols
    }

    /// Some entry is neither a name nor null.
    pub open spec fn has_foreign_entry(self) -> bool {
        self.cells matches Some(cells) && exists|i: int|
            0 <= i < cells.len() && #[trigger] cells[i] is Other
    }
}

/// What loading a document gives: the grid it saves, or the reason why it
/// saves none. The shape is judged before the entries.
pub open spec fn decode(doc: DocumentModel) -> Result<GridModel, EditorError> {
    if !doc.well_shaped() {
        Err(EditorError::MalformedDocument)
    } else if doc.has_foreign_entry() {
        Err(EditorError::TypeMismatch)
    } else {
        Ok(
            GridModel {
                rows: doc.rows->Some_0,
                cols: doc.cols->Some_0,
                cells: doc.cells->Some_0.map_values(|e: EntryModel| cell_of(e)),
            },
        )
    }
}

/// Saving a grid and loading the result gives the same grid back: the same
/// dimensions and the same cell at every coordinate.
pub proof fn law_round_trip(grid: GridModel)
    requires
        grid.wf(),
    ensures
        decode(encode(grid)) == Ok::<GridModel, EditorError>(grid),
{
    let doc = encode(grid);
    assert(doc.well_shaped());
    assert(!doc.has_foreign_entry());
    assert(doc.cells->Some_0.map_values(|e: EntryModel| cell_of(e)) =~= grid.cells);
}

/// What loads from a document is a well-formed grid with the document's
/// dimensions, whose cells are the document's entries in their order.
pub proof fn law_decode_well_formed(doc: DocumentModel)
    requires
        decode(doc) is Ok,
    ensures
        decode(doc)->Ok_0.wf(),
        doc.rows == Some(decode(doc)->Ok_0.rows),
        doc.cols == Some(decode(doc)->Ok_0.cols),
        doc.cells == Some(decode(doc)->Ok_0.cells.map_values(|c: CellModel| entry_of(c))),
{
    let grid = decode(doc)->Ok_0;
    let entries = doc.cells->Some_0;
    assert forall|i: int| 0 <= i < entries.len() implies entry_of(cell_of(#[trigger] entries[i]))
        == entries[i] by {
        assert(!(entries[i] is Other));
    }
    assert(entries =~= grid.cells.map_values(|c: CellModel| entry_of(c)));
}

impl TileGrid {
    /// The document that saves this grid.
    pub fn serialize(&self) -> (doc: GridDocument)
        ensures
            doc@ == encode(self@),
    {
        let stored = self.stored_cells();
        let mut entries: Vec<CellEntry> = Vec::new();
        let mut i: usize = 0;
        while i < stored.len()
            invariant
                i <= stored@.len(),
                entries@.len() == i,
                forall|k: int| 0 <= k < i ==> (#[trigger] entries@[k])@ == entry_of(cell_model(stored@[k])),
            decreases stored@.len() - i,
        {
            let entry = match &stored[i] {
                Some(name) => CellEntry::Name(name.clone()),
                None => CellEntry::Null,
            };
            entries.push(entry);
            i += 1;
        }
        let doc = GridDocument { rows: Some(self.rows()), cols: Some(self.cols()), cells: Some(entries) };
        assert(doc@.cells->Some_0 =~= encode(self@).cells->Some_0);
        doc
    }

    /// Loads the grid that a document saves.
    pub fn deserialize(doc: &GridDocument) -> (r: Result<TileGrid, EditorError>)
        ensures
            match r {
                Ok(grid) => grid.wf() && decode(doc@) == Ok::<GridModel, EditorError>(grid@),
                Err(e) => decode(doc@) == Err::<GridModel, EditorError>(e),
            },
    {
        let rows: usize = match doc.rows {
            Some(n) => n,
            None => { return Err(EditorError::MalformedDocument); },
        };
        let cols: usize = match doc.cols {
            Some(n) => n,
            None => { return Err(EditorError::MalformedDocument); },
        };
        let entries: &Vec<CellEntry> = match &doc.cells {
            Some(entries) => entries,
            None => { return Err(EditorError::MalformedDocument); },
        };
        if rows == 0 || cols == 0 {
            return Err(EditorError::MalformedDocument);
        }
        let count: usize = entries.len();
        match rows.checked_mul(cols) {
            Some(total) => {
                if total != count {
                    return Err(EditorError::MalformedDocument);
                }
            },
            None => { return Err(EditorError::MalformedDocument); },
        }
        assert(doc@.well_shaped());
        let mut cells: Vec<Option<String>> = Vec::new();
        let mut i: usize = 0;
        while i < entries.len()
            invariant
                doc@.well_shaped(),
                doc@.cells == Some(entries@.map_values(|e: CellEntry| e@)),
                i <= entries@.len(),
                cells@.len() == i,
                forall|k: int| 0 <= k < i ==> !((#[trigger] entries@[k])@ is Other),
                forall|k: int| 0 <= k < i ==> cell_model(#[trigger] cells@[k]) == cell_of(entries@[k]@),
            decreases entries@.len() - i,
        {
            match &entries[i] {
                CellEntry::Null => { cells.push(None); },
                CellEntry::Name(name) => { cells.push(Some(name.clone())); },
                CellEntry::Other => {
                    assert(doc@.cells->Some_0[i as int] is Other);
                    return Err(EditorError::TypeMismatch);
                },
            }
            i += 1;
        }
        assert(!doc@.has_foreign_entry());
        let grid = TileGrid::from_parts(rows, cols, cells);
        assert(grid@.cells =~= doc@.cells->Some_0.map_values(|e: EntryModel| cell_of(e)));
        Ok(grid)
    }
}

} // verus!
