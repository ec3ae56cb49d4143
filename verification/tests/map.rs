use pandamonium::map::{Position, TileMap};

#[test]
fn should_iterate_only_over_subset() {
    let mut map: TileMap<u32> = TileMap::new(10, 10);
    // fill entire map with tiles
    for i in 0..10 {
        map.row(0, i, 10, 3);
    }

    let mut iterated: Vec<(i32, i32)> = Vec::new();

    // The cells under a 2 by 3 rectangle at (2.5, 3.5): columns 2 to 4, rows 3 to 6.
    let (left, right, bottom, top) = (2.5f64, 4.5f64, 3.5f64, 6.5f64);
    let mut cells = map.region(left.floor() as usize, right.floor() as usize, bottom.floor() as usize, top.floor() as usize);
    while let Some((pos, _tile)) = cells.next() {
        iterated.push((pos.x, pos.y));
    }

    assert_eq!(iterated, vec![
        (2, 3), (3, 3), (4, 3),
        (2, 4), (3, 4), (4, 4),
        (2, 5), (3, 5), (4, 5),
        (2, 6), (3, 6), (4, 6)])
}

#[test]
fn get_reads_back_what_put_wrote() {
    let mut map: TileMap<char> = TileMap::new(3, 2);
    map.put(2, 1, 'a').put(0, 0, 'b');
    assert_eq!(&Some('a'), map.get(2, 1));
    assert_eq!(&Some('b'), map.get(0, 0));
    assert_eq!(&None, map.get(1, 1));
}

#[test]
fn get_off_the_map_is_empty() {
    let mut map: TileMap<char> = TileMap::new(3, 2);
    map.row(0, 0, 3, 'x');
    assert_eq!(&None, map.get(-1, 0));
    assert_eq!(&None, map.get(3, 0));
    assert_eq!(&None, map.get(0, 2));
    assert_eq!(&None, map.get(0, -5));
    assert_eq!(&Some('x'), map.get(2, 0));
}

#[test]
fn columns_fill_upwards() {
    let mut map: TileMap<u8> = TileMap::new(4, 4);
    map.column(1, 1, 3, 9);
    assert_eq!(vec![None, Some(9), Some(9), Some(9)], *map.index(1));
    assert_eq!(vec![None, None, None, None], *map.index(0));
}

#[test]
fn tiles_lists_occupied_cells_bottom_row_first() {
    let mut map: TileMap<u8> = TileMap::new(3, 3);
    map.put(2, 0, 1).put(0, 2, 2).put(1, 0, 3);
    let tiles = map.tiles();
    assert_eq!(
        vec![(Position { x: 1, y: 0 }, 3), (Position { x: 2, y: 0 }, 1), (Position { x: 0, y: 2 }, 2)],
        tiles
    );
    assert_eq!(3, map.columns());
    assert_eq!(3, map.rows());
}

#[test]
fn an_empty_map_has_no_tiles() {
    let map: TileMap<u8> = TileMap::new(0, 0);
    assert!(map.tiles().is_empty());
    let map: TileMap<u8> = TileMap::new(5, 5);
    let mut it = map.iter();
    assert!(it.next().is_none());
    assert!(it.next().is_none());
}
