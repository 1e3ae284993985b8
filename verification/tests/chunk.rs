use planetkit::globe::{Cell, CellPos, Chunk, Material, OutOfRange};

const AIR: Cell = Cell { material: Material::Air };
const SOLID: Cell = Cell { material: Material::Solid };
const WATER: Cell = Cell { material: Material::Water };

#[test]
fn new_chunk_is_filled() {
    let origin = CellPos::new(1, 4, 8, 0);
    let chunk = Chunk::new(origin, [2, 3, 4], SOLID).unwrap();
    assert_eq!(chunk.origin(), origin);
    assert_eq!(chunk.resolution(), [2, 3, 4]);
    for z in 0..4 {
        for y in 8..=11 {
            for x in 4..=6 {
                assert_eq!(chunk.cell(CellPos::new(1, x, y, z)), Ok(SOLID));
            }
        }
    }
}

#[test]
fn chunk_stores_one_more_row_and_column_but_no_more_layers() {
    let chunk = Chunk::new(CellPos::new(0, 0, 0, 0), [2, 2, 1], SOLID).unwrap();
    assert!(chunk.contains(CellPos::new(0, 2, 2, 0)));
    assert!(chunk.contains(CellPos::new(0, 2, 0, 0)));
    assert!(chunk.contains(CellPos::new(0, 0, 2, 0)));
    assert!(!chunk.contains(CellPos::new(0, 3, 0, 0)));
    assert!(!chunk.contains(CellPos::new(0, 0, 3, 0)));
    assert!(!chunk.contains(CellPos::new(0, 0, 0, 1)));
    assert!(!chunk.contains(CellPos::new(0, -1, 0, 0)));
    assert!(!chunk.contains(CellPos::new(0, 0, -1, 0)));
    assert!(!chunk.contains(CellPos::new(0, 0, 0, -1)));
}

#[test]
fn cell_outside_the_chunk_is_out_of_range() {
    let chunk = Chunk::new(CellPos::new(2, 10, 10, 5), [2, 2, 2], AIR).unwrap();
    assert_eq!(chunk.cell(CellPos::new(2, 9, 10, 5)), Err(OutOfRange));
    assert_eq!(chunk.cell(CellPos::new(2, 13, 10, 5)), Err(OutOfRange));
    assert_eq!(chunk.cell(CellPos::new(2, 10, 10, 7)), Err(OutOfRange));
    assert_eq!(chunk.cell(CellPos::new(2, 10, 10, 4)), Err(OutOfRange));
    assert_eq!(chunk.cell(CellPos::new(2, 12, 12, 6)), Ok(AIR));
}

#[test]
fn cell_on_another_root_is_out_of_range() {
    let chunk = Chunk::new(CellPos::new(2, 0, 0, 0), [2, 2, 2], AIR).unwrap();
    assert_eq!(chunk.cell(CellPos::new(3, 1, 1, 1)), Err(OutOfRange));
    assert!(!chunk.contains(CellPos::new(1, 0, 0, 0)));
}

#[test]
fn set_cell_changes_one_cell_only() {
    let origin = CellPos::new(0, -3, 7, 2);
    let mut chunk = Chunk::new(origin, [3, 2, 2], AIR).unwrap();
    let target = CellPos::new(0, -1, 8, 3);
    assert_eq!(chunk.set_cell(target, WATER), Ok(()));
    for z in 2..4 {
        for y in 7..=9 {
            for x in -3..=0 {
                let pos = CellPos::new(0, x, y, z);
                let expected = if pos == target { WATER } else { AIR };
                assert_eq!(chunk.cell(pos), Ok(expected));
            }
        }
    }
}

#[test]
fn every_cell_has_a_place_of_its_own() {
    let origin = CellPos::new(0, 0, 0, 0);
    let mut chunk = Chunk::new(origin, [2, 3, 2], AIR).unwrap();
    let materials = [Material::Air, Material::Solid, Material::Water];
    let mut n: usize = 0;
    for z in 0..2 {
        for y in 0..=3 {
            for x in 0..=2 {
                let cell = Cell { material: materials[(n * 7 + x as usize) % 3] };
                chunk.set_cell(CellPos::new(0, x, y, z), cell).unwrap();
                n += 1;
            }
        }
    }
    let mut n: usize = 0;
    for z in 0..2 {
        for y in 0..=3 {
            for x in 0..=2 {
                let cell = Cell { material: materials[(n * 7 + x as usize) % 3] };
                assert_eq!(chunk.cell(CellPos::new(0, x, y, z)), Ok(cell));
                n += 1;
            }
        }
    }
}

#[test]
fn set_cell_outside_the_chunk_fails_and_changes_nothing() {
    let mut chunk = Chunk::new(CellPos::new(0, 0, 0, 0), [1, 1, 1], SOLID).unwrap();
    assert_eq!(chunk.set_cell(CellPos::new(0, 2, 0, 0), AIR), Err(OutOfRange));
    assert_eq!(chunk.set_cell(CellPos::new(0, 0, 0, 1), AIR), Err(OutOfRange));
    for y in 0..=1 {
        for x in 0..=1 {
            assert_eq!(chunk.cell(CellPos::new(0, x, y, 0)), Ok(SOLID));
        }
    }
}

#[test]
fn no_chunk_without_cells() {
    let origin = CellPos::new(0, 0, 0, 0);
    assert!(Chunk::new(origin, [0, 2, 2], AIR).is_none());
    assert!(Chunk::new(origin, [2, 0, 2], AIR).is_none());
    assert!(Chunk::new(origin, [2, 2, 0], AIR).is_none());
    assert!(Chunk::new(origin, [-1, 2, 2], AIR).is_none());
    assert!(Chunk::new(origin, [1, 1, 1], AIR).is_some());
}

#[test]
fn no_chunk_past_the_end_of_the_coordinates() {
    assert!(Chunk::new(CellPos::new(0, i64::MAX - 2, 0, 0), [2, 1, 1], AIR).is_none());
    assert!(Chunk::new(CellPos::new(0, i64::MAX - 3, 0, 0), [2, 1, 1], AIR).is_some());
    assert!(Chunk::new(CellPos::new(0, 0, i64::MAX - 1, 0), [1, 1, 1], AIR).is_none());
    assert!(Chunk::new(CellPos::new(0, 0, 0, i64::MAX), [1, 1, 1], AIR).is_none());
    assert!(Chunk::new(CellPos::new(0, 0, 0, i64::MAX - 1), [1, 1, 1], AIR).is_some());
}

#[test]
fn no_chunk_with_more_cells_than_can_be_counted() {
    let origin = CellPos::new(0, 0, 0, 0);
    assert!(Chunk::new(origin, [1 << 40, 1 << 40, 4], AIR).is_none());
}
