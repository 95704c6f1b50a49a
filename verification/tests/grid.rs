use legeo::grid::{clamp_limits, ExtentInt, GridLevels, RawLimits};

fn mercator() -> GridLevels {
    GridLevels::new((0..23u32).map(|z| (1 << z, 1 << z)).collect()).unwrap()
}

fn wgs84() -> GridLevels {
    GridLevels::new((0..18u32).map(|z| (2 << z, 1 << z)).collect()).unwrap()
}

#[test]
fn levels_are_counted() {
    assert_eq!(mercator().nlevels(), 23);
    assert_eq!(mercator().maxzoom(), 22);
    assert_eq!(wgs84().nlevels(), 18);
    assert_eq!(wgs84().maxzoom(), 17);
    assert_eq!(mercator().level_max(0), (1, 1));
    assert_eq!(mercator().level_max(10), (1024, 1024));
    assert_eq!(wgs84().level_max(0), (2, 1));
}

#[test]
fn at_most_255_levels() {
    assert!(GridLevels::new(vec![(1, 1); 255]).is_some());
    assert!(GridLevels::new(vec![(1, 1); 256]).is_none());
    assert_eq!(GridLevels::new(Vec::new()).unwrap().nlevels(), 0);
}

#[test]
fn ytile_is_reversed_within_the_level() {
    let grid = mercator();
    assert_eq!(grid.ytile_from_xyz(332, 10), 691);
    assert_eq!(grid.ytile_from_xyz(691, 10), 332);
    assert_eq!(grid.ytile_from_xyz(90, 8), 165);
    assert_eq!(grid.ytile_from_xyz(717, 11), 1330);
    assert_eq!(grid.ytile_from_xyz(0, 0), 0);
    assert_eq!(grid.ytile_from_xyz(0, 10), 1023);
    assert_eq!(grid.ytile_from_xyz(1023, 10), 0);
}

#[test]
fn ytile_beyond_the_level_is_row_zero() {
    let grid = mercator();
    assert_eq!(grid.ytile_from_xyz(u32::MAX, 10), 0);
    assert_eq!(grid.ytile_from_xyz(u32::MAX, 10), grid.ytile_from_xyz(1023, 10));
    assert_eq!(grid.ytile_from_xyz(1024, 10), 0);
    assert_eq!(grid.ytile_from_xyz(1, 0), 0);
    let none = GridLevels::new(vec![(0, 0)]).unwrap();
    assert_eq!(none.ytile_from_xyz(0, 0), 0);
}

#[test]
fn limits_of_one_tile() {
    let raw = RawLimits { minx: 486, miny: 691, maxx: 487, maxy: 692 };
    assert_eq!(
        clamp_limits(raw, 0, (1024, 1024)),
        ExtentInt { minx: 486, miny: 691, maxx: 487, maxy: 692 }
    );
    let raw = RawLimits { minx: 133, miny: 165, maxx: 134, maxy: 166 };
    assert_eq!(
        clamp_limits(raw, 0, (256, 256)),
        ExtentInt { minx: 133, miny: 165, maxx: 134, maxy: 166 }
    );
}

#[test]
fn limits_of_the_whole_level() {
    assert_eq!(
        clamp_limits(RawLimits { minx: 0, miny: 0, maxx: 1, maxy: 1 }, 0, (1, 1)),
        ExtentInt { minx: 0, miny: 0, maxx: 1, maxy: 1 }
    );
    assert_eq!(
        clamp_limits(RawLimits { minx: 0, miny: 0, maxx: 1024, maxy: 1024 }, 0, (1024, 1024)),
        ExtentInt { minx: 0, miny: 0, maxx: 1024, maxy: 1024 }
    );
    assert_eq!(
        clamp_limits(RawLimits { minx: 0, miny: 0, maxx: 2, maxy: 1 }, 0, (2, 1)),
        ExtentInt { minx: 0, miny: 0, maxx: 2, maxy: 1 }
    );
}

#[test]
fn limits_are_widened_by_the_tolerance() {
    let raw = RawLimits { minx: 486, miny: 691, maxx: 487, maxy: 692 };
    assert_eq!(
        clamp_limits(raw, 2, (1024, 1024)),
        ExtentInt { minx: 484, miny: 689, maxx: 489, maxy: 694 }
    );
    assert_eq!(
        clamp_limits(raw, -1, (1024, 1024)),
        ExtentInt { minx: 487, miny: 692, maxx: 486, maxy: 691 }
    );
}

#[test]
fn limits_are_cut_to_the_level() {
    let raw = RawLimits { minx: -3, miny: -1, maxx: 2000, maxy: 1025 };
    assert_eq!(
        clamp_limits(raw, 0, (1024, 1024)),
        ExtentInt { minx: 0, miny: 0, maxx: 1024, maxy: 1024 }
    );
    let raw = RawLimits { minx: 1, miny: 1, maxx: 1023, maxy: 1023 };
    assert_eq!(
        clamp_limits(raw, 5, (1024, 1024)),
        ExtentInt { minx: 0, miny: 0, maxx: 1024, maxy: 1024 }
    );
    // a query left of and below the grid
    let raw = RawLimits { minx: -9, miny: -9, maxx: -4, maxy: -4 };
    assert_eq!(
        clamp_limits(raw, 0, (1024, 1024)),
        ExtentInt { minx: 0, miny: 0, maxx: 0, maxy: 0 }
    );
    // a query right of and above the grid
    let raw = RawLimits { minx: 2000, miny: 3000, maxx: 2001, maxy: 3001 };
    assert_eq!(
        clamp_limits(raw, 0, (1024, 1024)),
        ExtentInt { minx: 2000, miny: 3000, maxx: 1024, maxy: 1024 }
    );
}

#[test]
fn limits_at_the_ends_of_the_numbers() {
    let raw = RawLimits { minx: i32::MIN, miny: i32::MAX, maxx: i32::MAX, maxy: i32::MIN };
    assert_eq!(
        clamp_limits(raw, i32::MAX, (u32::MAX, u32::MAX)),
        ExtentInt { minx: 0, miny: 0, maxx: 4294967294, maxy: 0 }
    );
    assert_eq!(
        clamp_limits(raw, i32::MIN, (u32::MAX, u32::MAX)),
        ExtentInt { minx: 0, miny: u32::MAX, maxx: 0, maxy: 0 }
    );
}

#[test]
fn limits_of_every_level() {
    let grid = GridLevels::new(vec![(1, 1), (2, 2), (4, 4)]).unwrap();
    let raw = vec![
        RawLimits { minx: 0, miny: 0, maxx: 1, maxy: 1 },
        RawLimits { minx: 1, miny: 0, maxx: 2, maxy: 1 },
        RawLimits { minx: 2, miny: 1, maxx: 4, maxy: 2 },
    ];
    assert_eq!(
        grid.tile_limits(&raw, 0),
        vec![
            ExtentInt { minx: 0, miny: 0, maxx: 1, maxy: 1 },
            ExtentInt { minx: 1, miny: 0, maxx: 2, maxy: 1 },
            ExtentInt { minx: 2, miny: 1, maxx: 4, maxy: 2 },
        ]
    );
    assert_eq!(
        grid.tile_limits(&raw, 1),
        vec![
            ExtentInt { minx: 0, miny: 0, maxx: 1, maxy: 1 },
            ExtentInt { minx: 0, miny: 0, maxx: 2, maxy: 2 },
            ExtentInt { minx: 1, miny: 0, maxx: 4, maxy: 3 },
        ]
    );
}

#[test]
fn extent_int_knows_if_it_is_empty() {
    assert!(!ExtentInt { minx: 0, miny: 0, maxx: 1, maxy: 1 }.is_empty());
    assert!(ExtentInt { minx: 0, miny: 0, maxx: 0, maxy: 1 }.is_empty());
    assert!(ExtentInt { minx: 0, miny: 1, maxx: 1, maxy: 1 }.is_empty());
    assert!(ExtentInt { minx: 5, miny: 0, maxx: 1, maxy: 1 }.is_empty());
}
