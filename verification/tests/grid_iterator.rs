use legeo::grid::ExtentInt;
use legeo::grid_iterator::GridIterator;

fn full(n: u32) -> ExtentInt {
    ExtentInt { minx: 0, miny: 0, maxx: n, maxy: n }
}

fn mercator_limits(levels: u32) -> Vec<ExtentInt> {
    (0..levels).map(|z| full(1 << z)).collect()
}

fn collect(mut it: GridIterator) -> Vec<(u8, u32, u32)> {
    let mut cells = Vec::new();
    while let Some(cell) = it.next() {
        cells.push(cell);
    }
    cells
}

#[test]
fn test_mercator_iter() {
    let tile_limits = mercator_limits(23);
    let griditer = GridIterator::new(0, 2, tile_limits);
    let cells = collect(griditer);
    assert_eq!(
        cells,
        vec![
            (0, 0, 0),
            (1, 0, 0),
            (1, 0, 1),
            (1, 1, 0),
            (1, 1, 1),
            (2, 0, 0),
            (2, 0, 1),
            (2, 0, 2),
            (2, 0, 3),
            (2, 1, 0),
            (2, 1, 1),
            (2, 1, 2),
            (2, 1, 3),
            (2, 2, 0),
            (2, 2, 1),
            (2, 2, 2),
            (2, 2, 3),
            (2, 3, 0),
            (2, 3, 1),
            (2, 3, 2),
            (2, 3, 3)
        ]
    );
}

#[test]
fn iter_with_crossed_zooms_is_empty() {
    let cells = collect(GridIterator::new(3, 2, mercator_limits(6)));
    assert_eq!(cells, vec![]);
    let cells = collect(GridIterator::new(255, 0, mercator_limits(6)));
    assert_eq!(cells, vec![]);
}

#[test]
fn iter_with_missing_levels_is_empty() {
    // limits for the zooms 0 and 1 only: zoom 2 has no entry
    let cells = collect(GridIterator::new(0, 2, mercator_limits(2)));
    assert_eq!(cells, vec![]);
    // the smallest set of limits that covers zoom 2
    let cells = collect(GridIterator::new(2, 2, mercator_limits(3)));
    assert_eq!(cells.len(), 16);
    let cells = collect(GridIterator::new(0, 0, Vec::new()));
    assert_eq!(cells, vec![]);
}

#[test]
fn iter_is_finished_for_good() {
    let mut it = GridIterator::new(0, 0, mercator_limits(1));
    assert_eq!(it.next(), Some((0, 0, 0)));
    assert_eq!(it.next(), None);
    assert_eq!(it.next(), None);
}

#[test]
fn iter_count_is_sum_of_level_areas() {
    let limits = vec![
        ExtentInt { minx: 0, miny: 0, maxx: 1, maxy: 1 },
        ExtentInt { minx: 1, miny: 0, maxx: 2, maxy: 2 },
        ExtentInt { minx: 2, miny: 1, maxx: 5, maxy: 3 },
        ExtentInt { minx: 4, miny: 2, maxx: 9, maxy: 6 },
    ];
    let expected: usize = 1 * 1 + 1 * 2 + 3 * 2 + 5 * 4;
    assert_eq!(collect(GridIterator::new(0, 3, limits.clone())).len(), expected);
    assert_eq!(collect(GridIterator::new(1, 2, limits.clone())).len(), 2 + 6);
    assert_eq!(collect(GridIterator::new(3, 3, limits)).len(), 20);
}

#[test]
fn iter_walks_rows_first_then_columns() {
    let limits = vec![
        ExtentInt { minx: 0, miny: 0, maxx: 1, maxy: 1 },
        ExtentInt { minx: 3, miny: 5, maxx: 5, maxy: 8 },
    ];
    let cells = collect(GridIterator::new(1, 1, limits));
    assert_eq!(
        cells,
        vec![(1, 3, 5), (1, 3, 6), (1, 3, 7), (1, 4, 5), (1, 4, 6), (1, 4, 7)]
    );
}

#[test]
fn iter_passes_over_empty_levels() {
    let limits = vec![
        ExtentInt { minx: 0, miny: 0, maxx: 0, maxy: 1 },
        ExtentInt { minx: 0, miny: 0, maxx: 1, maxy: 2 },
        ExtentInt { minx: 3, miny: 3, maxx: 3, maxy: 3 },
        ExtentInt { minx: 7, miny: 2, maxx: 5, maxy: 9 },
        ExtentInt { minx: 6, miny: 6, maxx: 7, maxy: 7 },
        ExtentInt { minx: 6, miny: 9, maxx: 7, maxy: 7 },
    ];
    let cells = collect(GridIterator::new(0, 5, limits.clone()));
    assert_eq!(cells, vec![(1, 0, 0), (1, 0, 1), (4, 6, 6)]);
    let cells = collect(GridIterator::new(2, 3, limits.clone()));
    assert_eq!(cells, vec![]);
    let cells = collect(GridIterator::new(5, 5, limits));
    assert_eq!(cells, vec![]);
}

#[test]
fn iter_reaches_the_largest_numbers() {
    let mut limits = vec![ExtentInt { minx: 0, miny: 0, maxx: 0, maxy: 0 }; 256];
    limits[255] = ExtentInt {
        minx: u32::MAX - 1,
        miny: u32::MAX - 2,
        maxx: u32::MAX,
        maxy: u32::MAX,
    };
    let cells = collect(GridIterator::new(0, 255, limits));
    assert_eq!(
        cells,
        vec![(255, u32::MAX - 1, u32::MAX - 2), (255, u32::MAX - 1, u32::MAX - 1)]
    );
}

#[test]
fn iter_starts_again() {
    let mut it = GridIterator::new(0, 1, mercator_limits(2));
    assert_eq!(it.next(), Some((0, 0, 0)));
    assert_eq!(it.next(), Some((1, 0, 0)));
    assert_eq!(it.next(), Some((1, 0, 1)));
    it.restart();
    assert_eq!(it.next(), Some((0, 0, 0)));
    assert_eq!(collect(it).len(), 4);
    let mut it = GridIterator::new(1, 1, mercator_limits(2));
    while it.next().is_some() {}
    it.restart();
    assert_eq!(collect(it), vec![(1, 0, 0), (1, 0, 1), (1, 1, 0), (1, 1, 1)]);
    let mut it = GridIterator::new(1, 0, mercator_limits(2));
    it.restart();
    assert_eq!(it.next(), None);
}
