//! Tiling arithmetic, the stream table, and dark-target detection.

use orbit::device::DeviceId;
use orbit::find_tags::{flood_fill, from_matrix, HasSeen, PixelGrid, RgbPixel};
use orbit::layout::{ceiling_div, integer_square_root, Layout, LayoutEngine};
use orbit::streams::{FlipFlop, NodeAddress, StreamOrdinal, StreamSource, Streams};

fn source(device: u32) -> StreamSource {
    StreamSource::new(NodeAddress { ip: 0x7F00_0001, port: 2000 }, DeviceId(device))
}

#[test]
fn ceiling_div_rounds_up() {
    assert_eq!(ceiling_div(7, 2), 4);
    assert_eq!(ceiling_div(6, 3), 2);
    assert_eq!(ceiling_div(0, 5), 0);
    assert_eq!(ceiling_div(1, 5), 1);
}

#[test]
fn integer_square_root_floors() {
    assert_eq!(integer_square_root(0), 0);
    assert_eq!(integer_square_root(1), 1);
    assert_eq!(integer_square_root(15), 3);
    assert_eq!(integer_square_root(16), 4);
    assert_eq!(integer_square_root(u32::MAX), 65535);
}

#[test]
fn one_tile_fills_an_aspect_true_window() {
    let engine = LayoutEngine::new(90, 160, 1);
    assert_eq!(engine.horizontal_tile_count, 1);
    assert_eq!(engine.tile_width, 90);
    assert_eq!(engine.tile_height, 160);
    let rect = engine.viewport_rect(StreamOrdinal { index: 0 });
    assert_eq!((rect.left, rect.bottom, rect.width, rect.height), (0, 0, 90, 160));
}

#[test]
fn relayout_tracks_streams_and_window() {
    let mut engine = LayoutEngine::new(90, 160, 1);
    engine.update_stream_count(4);
    assert_eq!(engine.tile_count, 4);
    engine.update_screen_size(180, 160);
    assert_eq!((engine.window_width, engine.window_height), (180, 160));
    assert_eq!(engine.tile_count, 4);
    assert!(engine.horizontal_tile_count >= 1);
}

#[test]
fn the_square_root_guess_layout_fits_its_rows() {
    let layout = Layout::new(90, 160, 1);
    assert_eq!(layout.tile_count(), 1);
    assert!(layout.horizontal_tile_count >= 1);
    assert_eq!(layout.tile_height as u64, layout.tile_width as u64 * 16 / 9);
    let rect = layout.viewport_rect(0);
    assert_eq!((rect.width, rect.height), (layout.tile_width, layout.tile_height));
}

#[test]
fn cursor_hits_map_to_tiles() {
    let engine = LayoutEngine::new(90, 160, 1);
    let mut streams = Streams::new();
    streams.register_frame(source(1), 640, 360);
    let hit = engine.cursor_is_over(10, 10, &streams);
    assert_eq!(hit.map(|t| t.index()), Some(0));
    // Below the single stream's tile there is nothing to hit.
    let miss = engine.cursor_is_over(10, 10_000, &streams);
    assert!(miss.is_none());
}

#[test]
fn the_stream_table_keeps_display_order() {
    let mut streams = Streams::new();
    streams.register_frame(source(1), 640, 360);
    streams.register_frame(source(2), 360, 640);
    streams.register_frame(source(3), 640, 360);
    assert_eq!(streams.stream_count(), 3);

    // A landscape frame starts with the quarter turn on, a portrait one off.
    assert!(streams.streams[0].flip_flop.flop);
    assert!(!streams.streams[1].flip_flop.flop);

    // A repeated frame only refreshes the dimensions.
    streams.register_frame(source(2), 1280, 720);
    assert_eq!(streams.stream_count(), 3);
    assert_eq!(streams.streams[1].width, 1280);

    // Dragging the first tile to the last place shifts the rest up.
    streams.remove_and_insert(StreamOrdinal { index: 0 }, StreamOrdinal { index: 2 });
    assert_eq!(streams.get_stream_tile(source(1)).map(|t| t.index()), Some(2));
    assert_eq!(streams.get_stream_tile(source(2)).map(|t| t.index()), Some(0));

    // A feed that ends disappears; the others close ranks.
    streams.deregister_stream(source(2));
    assert_eq!(streams.stream_count(), 2);
    assert_eq!(streams.get_stream_tile(source(3)).map(|t| t.index()), Some(0));
    assert!(streams.get_stream_tile(source(2)).is_none());

    assert!(streams.get_ordinal(1).is_some());
    assert!(streams.get_ordinal(2).is_none());
}

#[test]
fn flipping_toggles_the_half_turn() {
    let mut ff = FlipFlop::new(640, 360);
    assert_eq!(ff.quarter_turns(), 1);
    ff.flip();
    assert_eq!(ff.quarter_turns(), 3);

    let mut streams = Streams::new();
    streams.register_frame(source(1), 360, 640);
    assert_eq!(streams.streams[0].flip_flop.quarter_turns(), 0);
    streams.flip(StreamOrdinal { index: 0 });
    assert_eq!(streams.streams[0].flip_flop.quarter_turns(), 2);
}

fn grid_from_rows(rows: &[&[u8]]) -> PixelGrid {
    let height = rows.len() as u32;
    let width = rows[0].len() as u32;
    let mut data = Vec::new();
    for row in rows {
        for &v in row.iter() {
            data.push(RgbPixel { r: v, g: v, b: v });
        }
    }
    PixelGrid { width, height, data }
}

#[test]
fn a_dark_square_is_one_target_at_its_center() {
    // A 2x2 dark block in a light 4x4 frame.
    let grid = grid_from_rows(&[
        &[200, 200, 200, 200],
        &[200, 0, 0, 200],
        &[200, 0, 0, 200],
        &[200, 200, 200, 200],
    ]);
    let targets = from_matrix(&grid, 50);
    assert_eq!(targets.len(), 1);
    // Mean of {1,2} in both axes floors to 1.
    assert_eq!((targets[0].x, targets[0].y), (1, 1));
}

#[test]
fn separate_dark_regions_are_separate_targets() {
    let grid = grid_from_rows(&[
        &[0, 200, 200, 0],
        &[200, 200, 200, 200],
        &[0, 200, 200, 200],
    ]);
    let targets = from_matrix(&grid, 50);
    assert_eq!(targets.len(), 3);
}

#[test]
fn flood_fill_marks_what_it_fills() {
    let grid = grid_from_rows(&[&[0, 0, 200], &[200, 200, 200]]);
    let mut has_seen = HasSeen::new(3, 2);
    let mut stack = Vec::new();
    let target = flood_fill(0, 0, &grid, 50, &mut has_seen, &mut stack).unwrap();
    assert_eq!((target.x, target.y), (0, 0));
    assert!(has_seen.get(0, 0));
    assert!(has_seen.get(1, 0));
    assert!(!has_seen.get(2, 0));
}
