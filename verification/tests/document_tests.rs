use tile_editor::document::{CellEntry, GridDocument};
use tile_editor::error::EditorError;
use tile_editor::grid::TileGrid;

fn entry(text: &str) -> CellEntry {
    CellEntry::Name(text.to_string())
}

fn sample() -> TileGrid {
    let mut grid = TileGrid::new(2, 3).unwrap();
    grid.set(0, 0, Some("grass.png".to_string())).unwrap();
    grid.set(2, 0, Some("tree.png".to_string())).unwrap();
    grid.set(1, 1, Some("".to_string())).unwrap();
    grid
}

#[test]
fn serialize_lists_the_cells_row_by_row() {
    let doc = sample().serialize();
    assert_eq!(doc.rows, Some(2));
    assert_eq!(doc.cols, Some(3));
    assert_eq!(
        doc.cells,
        Some(vec![
            entry("grass.png"),
            CellEntry::Null,
            entry("tree.png"),
            CellEntry::Null,
            entry(""),
            CellEntry::Null,
        ])
    );
}

#[test]
fn serialize_puts_a_cell_at_its_row_major_index() {
    let mut grid = TileGrid::new(4, 6).unwrap();
    grid.set(2, 1, Some("tree.png".to_string())).unwrap();
    let doc = grid.serialize();
    let cells = doc.cells.unwrap();
    assert_eq!(cells.len(), 24);
    for (i, cell) in cells.iter().enumerate() {
        if i == 8 {
            assert_eq!(*cell, entry("tree.png"));
        } else {
            assert_eq!(*cell, CellEntry::Null);
        }
    }
}

#[test]
fn deserialize_gives_back_what_serialize_was_given() {
    let grid = sample();
    let back = TileGrid::deserialize(&grid.serialize()).unwrap();
    assert_eq!(back.size(), (2, 3));
    for y in 0..2 {
        for x in 0..3 {
            assert_eq!(back.get(x, y), grid.get(x, y));
        }
    }
    assert_eq!(back, grid);
}

#[test]
fn deserialize_reads_a_document_written_by_hand() {
    let doc = GridDocument {
        rows: Some(1),
        cols: Some(2),
        cells: Some(vec![CellEntry::Null, entry("a.png")]),
    };
    let grid = TileGrid::deserialize(&doc).unwrap();
    assert_eq!(grid.size(), (1, 2));
    assert_eq!(grid.get(0, 0), Ok(None));
    assert_eq!(grid.get(1, 0), Ok(Some(&"a.png".to_string())));
}

fn outcome(doc: GridDocument) -> Option<EditorError> {
    TileGrid::deserialize(&doc).err()
}

#[test]
fn deserialize_rejects_a_missing_field() {
    let cells = || Some(vec![CellEntry::Null]);
    assert_eq!(
        outcome(GridDocument { rows: None, cols: Some(1), cells: cells() }),
        Some(EditorError::MalformedDocument)
    );
    assert_eq!(
        outcome(GridDocument { rows: Some(1), cols: None, cells: cells() }),
        Some(EditorError::MalformedDocument)
    );
    assert_eq!(
        outcome(GridDocument { rows: Some(1), cols: Some(1), cells: None }),
        Some(EditorError::MalformedDocument)
    );
}

#[test]
fn deserialize_rejects_a_zero_dimension() {
    assert_eq!(
        outcome(GridDocument { rows: Some(0), cols: Some(1), cells: Some(vec![]) }),
        Some(EditorError::MalformedDocument)
    );
    assert_eq!(
        outcome(GridDocument { rows: Some(1), cols: Some(0), cells: Some(vec![]) }),
        Some(EditorError::MalformedDocument)
    );
}

#[test]
fn deserialize_rejects_a_wrong_number_of_entries() {
    assert_eq!(
        outcome(GridDocument { rows: Some(2), cols: Some(2), cells: Some(vec![]) }),
        Some(EditorError::MalformedDocument)
    );
    let three = vec![CellEntry::Null, CellEntry::Null, CellEntry::Null];
    assert_eq!(
        outcome(GridDocument { rows: Some(2), cols: Some(2), cells: Some(three) }),
        Some(EditorError::MalformedDocument)
    );
    let five = vec![CellEntry::Null, CellEntry::Null, CellEntry::Null, CellEntry::Null, CellEntry::Null];
    assert_eq!(
        outcome(GridDocument { rows: Some(2), cols: Some(2), cells: Some(five) }),
        Some(EditorError::MalformedDocument)
    );
}

#[test]
fn deserialize_rejects_dimensions_whose_product_is_too_large() {
    assert_eq!(
        outcome(GridDocument { rows: Some(usize::MAX), cols: Some(2), cells: Some(vec![CellEntry::Null]) }),
        Some(EditorError::MalformedDocument)
    );
}

#[test]
fn deserialize_rejects_a_foreign_entry() {
    let cells = vec![CellEntry::Null, entry("a"), CellEntry::Other, CellEntry::Null];
    assert_eq!(
        outcome(GridDocument { rows: Some(2), cols: Some(2), cells: Some(cells) }),
        Some(EditorError::TypeMismatch)
    );
}

#[test]
fn deserialize_judges_the_shape_before_the_entries() {
    let cells = vec![CellEntry::Other];
    assert_eq!(
        outcome(GridDocument { rows: Some(2), cols: Some(2), cells: Some(cells) }),
        Some(EditorError::MalformedDocument)
    );
}
