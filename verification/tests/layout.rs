use mimick_library::clock::format_day_header;
use mimick_library::grid::{hit_test, nearest, RowSpans, TileSpan};
use mimick_library::layout::{
    first_row_at_or_after, group_by_day, item_at_x, plan_grid, row_at_y, DatedAsset, RowKind,
    RowPacker, RowRange, Span,
};

// Heights and positions in tenths of a pixel.
fn span(from: i64, length: i64) -> Span {
    Span { from, to: from + length }
}

#[test]
fn binary_search_finds_correct_row() {
    let rows = vec![span(0, 1000), span(1000, 1500), span(2500, 800)];
    assert_eq!(row_at_y(&rows, 0), Some(0));
    assert_eq!(row_at_y(&rows, 1000), Some(1));
    assert_eq!(row_at_y(&rows, 3299), Some(2));
    assert_eq!(row_at_y(&rows, 3300), None);
}

#[test]
fn item_hit_test_within_row() {
    let indexes = [5, 6, 7];
    let tiles = vec![span(0, 500), span(500, 800), span(1300, 400)];
    assert_eq!(item_at_x(&tiles, 0).map(|i| indexes[i]), Some(5));
    assert_eq!(item_at_x(&tiles, 500).map(|i| indexes[i]), Some(6));
    assert_eq!(item_at_x(&tiles, 1300).map(|i| indexes[i]), Some(7));
    assert!(item_at_x(&tiles, 2000).is_none());
}

#[test]
fn first_row_skip_lands_on_intersecting_row() {
    let bottoms = vec![1000, 2000, 3000];
    assert_eq!(first_row_at_or_after(&bottoms, -500), 0);
    assert_eq!(first_row_at_or_after(&bottoms, 0), 0);
    assert_eq!(first_row_at_or_after(&bottoms, 1500), 1);
    assert_eq!(first_row_at_or_after(&bottoms, 2500), 2);
    assert_eq!(first_row_at_or_after(&bottoms, 5000), 3);
}

#[test]
fn day_header_formats_immich_style() {
    assert_eq!(format_day_header("2026-07-19T15:42:00.000Z"), "Sunday, July 19th 2026");
    assert_eq!(format_day_header("2026-07-01"), "Wednesday, July 1st 2026");
    assert_eq!(format_day_header("2026-07-02"), "Thursday, July 2nd 2026");
    assert_eq!(format_day_header("2026-07-03"), "Friday, July 3rd 2026");
    assert_eq!(format_day_header("2026-07-11"), "Saturday, July 11th 2026");
    assert_eq!(format_day_header("2026-07-21"), "Tuesday, July 21st 2026");
}

#[test]
fn day_header_falls_back_on_unparseable() {
    assert_eq!(format_day_header("not-a-date"), "not-a-date");
    assert_eq!(format_day_header(""), "Unknown");
}

fn dated(index: u32, created_at: &str) -> DatedAsset {
    DatedAsset { index, created_at: created_at.into() }
}

#[test]
fn grid_has_a_header_for_each_day() {
    let assets = vec![
        dated(0, "2026-07-19T10:00:00Z"),
        dated(1, "2026-07-19T09:00:00Z"),
        dated(2, "2026-07-19T08:00:00Z"),
        dated(3, "2026-07-18T10:00:00Z"),
    ];
    let groups = group_by_day(&assets);
    assert_eq!(groups.len(), 2);
    assert_eq!(groups[0].indices, vec![0, 1, 2]);
    let rows = plan_grid(&assets, 2);
    assert_eq!(rows.len(), 5);
    assert_eq!(rows[0].kind, RowKind::DateHeader { label: "Sunday, July 19th 2026".into() });
    assert_eq!(rows[1].indices, vec![0, 1]);
    assert_eq!(rows[2].indices, vec![2]);
    assert_eq!(rows[3].kind, RowKind::DateHeader { label: "Saturday, July 18th 2026".into() });
    assert_eq!(rows[4].indices, vec![3]);
}

#[test]
fn grid_without_columns_or_assets_is_empty() {
    assert!(plan_grid(&vec![dated(0, "2026-07-19")], 0).is_empty());
    assert!(plan_grid(&vec![], 3).is_empty());
}

#[test]
fn row_kind_defaults_to_tiles() {
    assert_eq!(RowKind::default(), RowKind::Tiles);
}

#[test]
fn hit_test_finds_the_tile() {
    let rows = vec![
        RowSpans { span: span(0, 400), tiles: vec![] },
        RowSpans {
            span: span(440, 1000),
            tiles: vec![
                TileSpan { span: span(0, 1000), asset_index: 7 },
                TileSpan { span: span(1040, 1000), asset_index: 9 },
            ],
        },
    ];
    assert_eq!(hit_test(&rows, 1100, 500), Some(9));
    assert_eq!(hit_test(&rows, 1010, 500), None);
    assert_eq!(hit_test(&rows, 0, 100), None);
    assert_eq!(hit_test(&rows, 0, 420), None);
    let overlapping = vec![RowSpans {
        span: span(0, 400),
        tiles: vec![
            TileSpan { span: span(0, 1000), asset_index: 3 },
            TileSpan { span: span(500, 1000), asset_index: 4 },
        ],
    }];
    assert_eq!(hit_test(&overlapping, 700, 0), Some(3));
    assert_eq!(hit_test(&overlapping, 1200, 0), Some(4));
}

#[test]
fn nearest_prefers_the_first_of_equals() {
    assert_eq!(nearest(&vec![5, 3, 3, 8]), Some(1));
    assert_eq!(nearest(&vec![]), None);
}

#[test]
fn justified_rows_take_items_until_one_overflows() {
    let mut packer = RowPacker::new(4);
    assert_eq!(packer.candidate(), Some(0));
    // The first item of a row is taken however wide it is.
    assert!(packer.offer(true));
    assert!(packer.offer(false));
    assert!(!packer.offer(true));
    assert_eq!(packer.candidate(), Some(2));
    assert_eq!(packer.close(false), RowRange { from: 0, to: 2 });
    assert!(packer.offer(false));
    assert!(packer.offer(false));
    assert_eq!(packer.candidate(), None);
    // A row that is too low gives its last item to the next one.
    assert_eq!(packer.close(true), RowRange { from: 2, to: 3 });
    assert_eq!(packer.candidate(), Some(3));
    assert!(packer.offer(true));
    assert_eq!(packer.close(true), RowRange { from: 3, to: 4 });
    assert_eq!(packer.candidate(), None);
    let lengths: Vec<u32> = packer.rows.iter().map(|row| row.to - row.from).collect();
    assert_eq!(lengths, vec![2, 1, 1]);
}
