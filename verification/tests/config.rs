use ricochet::board::{BoardError, Tile, TileParseError, TileSet};
use ricochet::config::{height, resolve_parents, width, AppConfig, WindowConfig};
use ricochet::positioning::{LogicalPos, SideLength};

fn set(name: &str, texts: &[&str]) -> TileSet {
    TileSet::new(
        SideLength(2),
        name.to_string(),
        texts.iter().map(|text| text.to_string()).collect(),
    )
}

fn config(tile_sets: Vec<TileSet>) -> AppConfig {
    AppConfig {
        window: WindowConfig::default(),
        assets_path: "assets".to_string(),
        board_side_length: SideLength(16),
        tile_sets,
    }
}

#[test]
fn window_is_800_by_800_unless_told() {
    assert_eq!(WindowConfig::default(), WindowConfig { width: 800, height: 800 });
    assert_eq!(width(), 800);
    assert_eq!(height(), 800);
}

#[test]
fn every_tile_set_is_read() {
    let mut config = config(vec![set("a", &["....", "#..."]), set("b", &[]), set("c", &["...#"])]);
    assert_eq!(config.parse_tiles(), Ok(()));
    assert_eq!(config.tile_sets[0].tiles.len(), 2);
    assert_eq!(config.tile_sets[1].tiles.len(), 0);
    assert_eq!(
        config.tile_sets[2].tiles,
        vec![Tile::new(vec![], vec![LogicalPos { x: 1, y: 1 }])]
    );
    assert_eq!(config.board_side_length, SideLength(16));
    assert_eq!(config.assets_path, "assets");
}

#[test]
fn reading_stops_at_the_first_bad_tile_set() {
    let mut config =
        config(vec![set("a", &["...."]), set("b", &["....", "....."]), set("c", &["...."])]);
    assert_eq!(
        config.parse_tiles(),
        Err(BoardError::InvalidTileFormat {
            tile_set_name: "b".to_string(),
            tile_index: 1,
            cause: TileParseError::TooLargeContent { max_rows: 2, tile: ".....".to_string() },
        })
    );
    assert_eq!(config.tile_sets[0].tiles.len(), 1);
    assert!(config.tile_sets[1].tiles.is_empty());
    assert!(config.tile_sets[2].tiles.is_empty());
    assert_eq!(config.tile_sets.len(), 3);
}

#[test]
fn parent_steps_take_the_component_before_them() {
    let no = false;
    let up = true;
    assert_eq!(resolve_parents(&vec![]), Vec::<usize>::new());
    assert_eq!(resolve_parents(&vec![no, no, no]), vec![0, 1, 2]);
    assert_eq!(resolve_parents(&vec![no, no, up, no]), vec![0, 3]);
    assert_eq!(resolve_parents(&vec![no, no, up, up, no]), vec![4]);
    assert_eq!(resolve_parents(&vec![no, no, no, up, no, up, up, no]), vec![0, 7]);
}

#[test]
fn parent_step_with_nothing_before_it_is_dropped() {
    let no = false;
    let up = true;
    assert_eq!(resolve_parents(&vec![up]), Vec::<usize>::new());
    assert_eq!(resolve_parents(&vec![up, up, no]), vec![2]);
    assert_eq!(resolve_parents(&vec![no, up, up, no, no]), vec![3, 4]);
}
