use cepheus_trader::coverage::{CellBitmap, CoverageChunk};

#[test]
fn chunk_layers_never_reassign_resolved_cells() {
    let mut first = CellBitmap::empty();
    first.set(17);
    first.set(900);
    let mut second = CellBitmap::empty();
    second.set(900);
    second.set(901);
    let mut chunk = CoverageChunk::default();
    assert_eq!(chunk.add_resolution(1, 1, &first), 2);
    assert_eq!(chunk.add_resolution(2, 1, &second), 1);
    assert_eq!(chunk.layers.len(), 2);
    assert_eq!(chunk.layers[0].resolved_cells.count_ones(), 2);
    assert_eq!(chunk.layers[1].resolved_cells.count_ones(), 1);
    assert!(chunk.resolved_cells().contains(901));
}

#[test]
fn an_existing_layer_gains_exactly_the_new_cells() {
    let mut first = CellBitmap::empty();
    first.set(10);
    first.set(11);
    let mut other = CellBitmap::empty();
    other.set(12);
    let mut more = CellBitmap::empty();
    more.set(11);
    more.set(12);
    more.set(13);
    let mut chunk = CoverageChunk::default();
    assert_eq!(chunk.add_resolution(1, 1, &first), 2);
    assert_eq!(chunk.add_resolution(2, 1, &other), 1);
    assert_eq!(chunk.add_resolution(1, 1, &more), 1);
    assert_eq!(chunk.layers.len(), 2);
    assert_eq!(chunk.layers[0].resolved_cells.count_ones(), 3);
    assert!(chunk.layers[0].resolved_cells.contains(13));
    assert!(!chunk.layers[0].resolved_cells.contains(12));
    assert_eq!(chunk.layers[1].resolved_cells.count_ones(), 1);
    assert_eq!(chunk.add_resolution(1, 1, &more), 0);
}
