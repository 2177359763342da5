use glyphsvg::path::{PathCommand, VectorPath, COORD_LIMIT, UNIT};
use glyphsvg::transform::{normalize_path, try_normalize_path};

fn sample() -> VectorPath {
    VectorPath {
        commands: vec![
            PathCommand::MoveTo { x: 100 * UNIT, y: 0 },
            PathCommand::LineTo { x: 900 * UNIT, y: 700 * UNIT },
            PathCommand::QuadTo { cx: -5 * UNIT, cy: -200 * UNIT, x: 3, y: 1 },
            PathCommand::CubicTo {
                c1x: 1 * UNIT,
                c1y: 2 * UNIT,
                c2x: 3 * UNIT,
                c2y: 1500 * UNIT,
                x: 5 * UNIT,
                y: UNIT / 2,
            },
            PathCommand::Close,
        ],
    }
}

#[test]
fn y_is_mirrored_and_raised_by_the_em_square() {
    let got = normalize_path(&sample(), 1000);
    assert_eq!(
        got.commands,
        vec![
            PathCommand::MoveTo { x: 100 * UNIT, y: 1000 * UNIT },
            PathCommand::LineTo { x: 900 * UNIT, y: 300 * UNIT },
            PathCommand::QuadTo { cx: -5 * UNIT, cy: 1200 * UNIT, x: 3, y: 1000 * UNIT - 1 },
            PathCommand::CubicTo {
                c1x: 1 * UNIT,
                c1y: 998 * UNIT,
                c2x: 3 * UNIT,
                c2y: -500 * UNIT,
                x: 5 * UNIT,
                y: 1000 * UNIT - UNIT / 2,
            },
            PathCommand::Close,
        ]
    );
}

#[test]
fn transform_depends_on_units_per_em_only() {
    let by_2048 = normalize_path(&sample(), 2048);
    assert_eq!(by_2048.commands[0], PathCommand::MoveTo { x: 100 * UNIT, y: 2048 * UNIT });
    assert_eq!(by_2048.commands[1], PathCommand::LineTo { x: 900 * UNIT, y: 1348 * UNIT });
    let by_max = normalize_path(&sample(), u16::MAX);
    assert_eq!(by_max.commands[1], PathCommand::LineTo { x: 900 * UNIT, y: 64835 * UNIT });
}

#[test]
fn empty_path_stays_empty() {
    assert_eq!(normalize_path(&VectorPath::new(), 1000), VectorPath::new());
}

#[test]
fn flipping_twice_gives_the_path_back() {
    for units in [1u16, 1000, 2048, u16::MAX] {
        let once = normalize_path(&sample(), units);
        assert_ne!(once, sample());
        assert_eq!(normalize_path(&once, units), sample());
    }
}

#[test]
fn coordinates_at_the_limit_are_flipped() {
    let path = VectorPath { commands: vec![PathCommand::MoveTo { x: COORD_LIMIT, y: -COORD_LIMIT }] };
    let got = normalize_path(&path, u16::MAX);
    assert_eq!(
        got.commands,
        vec![PathCommand::MoveTo { x: COORD_LIMIT, y: 65535 * UNIT + COORD_LIMIT }]
    );
}

#[test]
fn path_beyond_the_limit_is_not_flipped() {
    let path = VectorPath { commands: vec![PathCommand::LineTo { x: 0, y: i64::MIN }] };
    assert_eq!(try_normalize_path(&path, 1000), None);
    assert_eq!(try_normalize_path(&sample(), 1000), Some(normalize_path(&sample(), 1000)));
}
