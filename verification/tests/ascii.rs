use mosaic::ascii::{
    braille_glyph,
    cell_count, check_feature_budget, extract_cell_colors, mean_color, pack_rgba, render_halfblock,
    sub_span, vocabulary, vocabulary_structural, Error, Grid, ImageRef, CORE_STRIDE, MAX_CELLS,
    MAX_FEATURE_BYTES,
};

/// The grid the engine lays over an image for `cols` columns of cells `cell_aspect` times
/// taller than wide: the row count keeps the image proportional.
fn grid_for(width: u32, height: u32, cols: u32, cell_aspect: f32) -> Grid {
    let cols = cols.max(1);
    let cell_w = width as f32 / cols as f32;
    let cell_h = cell_w * cell_aspect.max(0.01);
    let rows = ((height as f32 / cell_h).round() as u32).max(1);
    Grid::with_rows(width, height, cols, rows)
}

fn solid(width: u32, height: u32, rgb: (u8, u8, u8)) -> Vec<u8> {
    let (r, g, b) = rgb;
    let mut v = Vec::with_capacity((width as usize) * (height as usize) * 4);
    for _ in 0..(width * height) {
        v.extend_from_slice(&[r, g, b, 255]);
    }
    v
}

#[test]
fn halfblock_splits_top_and_bottom() {
    let rgba = [
        255, 0, 0, 255, 255, 0, 0, 255, //
        0, 0, 255, 255, 0, 0, 255, 255, //
    ];
    let image = ImageRef::new(2, 2, &rgba).unwrap();
    let grid = grid_for(2, 2, 1, 1.0);
    let hb = render_halfblock(&image, &grid).unwrap();
    assert_eq!((hb.cols, hb.rows), (1, 1));
    assert_eq!(hb.fg, vec![pack_rgba(255, 0, 0, 255)]);
    assert_eq!(hb.bg, vec![pack_rgba(0, 0, 255, 255)]);
}

#[test]
fn cell_colors_are_the_integer_mean() {
    let rgba = [
        255, 0, 0, 255, 255, 0, 0, 255, //
        0, 0, 255, 255, 0, 0, 255, 255, //
    ];
    let image = ImageRef::new(2, 2, &rgba).unwrap();
    let grid = grid_for(2, 2, 1, 1.0);
    let colors = extract_cell_colors(&image, &grid).unwrap();
    assert_eq!(colors, vec![pack_rgba(127, 0, 127, 255)]);
}

#[test]
fn rejects_mismatched_buffer() {
    let data = vec![0u8; 10];
    assert_eq!(
        ImageRef::new(2, 2, &data).unwrap_err(),
        Error::BufferSizeMismatch { expected: 16, actual: 10 }
    );
    let ok = solid(2, 2, (0, 0, 0));
    assert!(ImageRef::new(2, 2, &ok).is_ok());
}

#[test]
fn rejects_empty_image() {
    assert_eq!(ImageRef::new(0, 4, &[]).unwrap_err(), Error::EmptyImage);
}

#[test]
fn vocabulary_matches_core_schema() {
    let schema = vocabulary();
    assert_eq!(schema.total_slots(), CORE_STRIDE);
    assert_eq!(CORE_STRIDE, 8);
    assert_eq!(schema.max_radius(), 1);
}

#[test]
fn structural_vocabulary_matches_core_schema() {
    let schema = vocabulary_structural();
    assert_eq!(schema.total_slots(), 64);
    assert_eq!(schema.max_radius(), 0);
}

#[test]
fn cells_tile_the_image() {
    let grid = Grid::with_rows(10, 7, 3, 2);
    assert_eq!((grid.cols(), grid.rows()), (3, 2));
    assert_eq!(grid.cell_bounds(0, 0), (0, 3, 0, 3));
    assert_eq!(grid.cell_bounds(1, 0), (3, 6, 0, 3));
    assert_eq!(grid.cell_bounds(2, 1), (6, 10, 3, 7));
    // More columns than pixels: every cell still holds a pixel.
    let grid = Grid::with_rows(2, 2, 5, 1);
    for col in 0..5 {
        let (x0, x1, _, _) = grid.cell_bounds(col, 0);
        assert!(x0 < x1 && x1 <= 2);
    }
    // Zero counts clamp to one.
    let grid = Grid::with_rows(4, 4, 0, 0);
    assert_eq!((grid.cols(), grid.rows()), (1, 1));
}

#[test]
fn sub_spans_split_evenly() {
    assert_eq!(sub_span(10, 18, 0, 4), (10, 12));
    assert_eq!(sub_span(10, 18, 3, 4), (16, 18));
    assert_eq!(sub_span(0, 3, 1, 2), (1, 3));
    assert_eq!(sub_span(5, 5, 0, 2), (5, 5));
}

#[test]
fn mean_color_of_an_empty_rectangle_is_transparent_black() {
    let data = solid(2, 2, (200, 100, 50));
    let image = ImageRef::new(2, 2, &data).unwrap();
    assert_eq!(mean_color(&image, 1, 1, 0, 2), 0);
    assert_eq!(mean_color(&image, 0, 2, 0, 2), pack_rgba(200, 100, 50, 255));
    assert_eq!(image.rgba(1, 1), [200, 100, 50, 255]);
    assert_eq!((image.width(), image.height()), (2, 2));
}

#[test]
fn budgets_refuse_oversized_grids() {
    let grid = Grid::with_rows(1, 1, 4000, 4000);
    assert_eq!(
        cell_count(&grid),
        Err(Error::TooManyCells { cells: 16_000_000, max: MAX_CELLS })
    );
    assert_eq!(cell_count(&Grid::with_rows(1, 1, 3, 2)), Ok(6));
    assert_eq!(check_feature_budget(1000, 8), Ok(()));
    assert_eq!(
        check_feature_budget(1_000_000, 8),
        Err(Error::FeatureBufferTooLarge { bytes: 32_000_000, max: MAX_FEATURE_BYTES })
    );
    assert_eq!(check_feature_budget(usize::MAX, 2), Err(Error::DimensionOverflow));
    let data = solid(1, 1, (0, 0, 0));
    let image = ImageRef::new(1, 1, &data).unwrap();
    assert!(render_halfblock(&image, &Grid::with_rows(1, 1, 4000, 4000)).is_err());
}

#[test]
fn halfblock_of_a_one_pixel_tall_cell_repeats_the_row() {
    let data = solid(2, 1, (9, 8, 7));
    let image = ImageRef::new(2, 1, &data).unwrap();
    let hb = render_halfblock(&image, &Grid::with_rows(2, 1, 2, 1)).unwrap();
    assert_eq!(hb.fg, hb.bg);
    assert_eq!(hb.fg, vec![pack_rgba(9, 8, 7, 255); 2]);
}

#[test]
fn errors_read_as_text() {
    assert_eq!(
        Error::BufferSizeMismatch { expected: 16, actual: 10 }.to_display_string(),
        "RGBA buffer size mismatch: expected 16 bytes, got 10"
    );
    assert_eq!(
        Error::TooManyCells { cells: 9, max: 8 }.to_display_string(),
        "grid has 9 cells, exceeding the maximum of 8"
    );
    assert_eq!(Error::ZeroColumns.to_display_string(), "output columns must be greater than zero");
}

#[test]
fn braille_glyph_raises_the_dot_of_each_lit_sub_cell() {
    assert_eq!(braille_glyph([false; 8]), 0x2800);
    assert_eq!(braille_glyph([true; 8]), 0x28FF);
    // Top-left is dot 1, top-right dot 4, bottom-left dot 7, bottom-right dot 8.
    assert_eq!(braille_glyph([true, false, false, false, false, false, false, false]), 0x2801);
    assert_eq!(braille_glyph([false, true, false, false, false, false, false, false]), 0x2808);
    assert_eq!(braille_glyph([false, false, false, false, false, false, true, false]), 0x2840);
    assert_eq!(braille_glyph([false, false, false, false, false, false, false, true]), 0x2880);
    // The left column alone is dots 1, 2, 3, 7.
    assert_eq!(braille_glyph([true, false, true, false, true, false, true, false]), 0x2847);
}

#[test]
fn grid_cells_partition_the_image_evenly() {
    let g = Grid::with_rows(10, 7, 3, 2);
    let mut hits = vec![0u32; 70];
    let mut widths = vec![];
    for row in 0..2 {
        for col in 0..3 {
            let (x0, x1, y0, y1) = g.cell_bounds(col, row);
            widths.push(x1 - x0);
            for y in y0..y1 {
                for x in x0..x1 {
                    hits[(y * 10 + x) as usize] += 1;
                }
            }
        }
    }
    assert!(hits.iter().all(|&h| h == 1));
    assert!(widths.iter().all(|&w| w == 3 || w == 4));
}
