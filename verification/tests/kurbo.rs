use glyphsvg::path::{PathCommand, VectorPath};
use glyphsvg::svg::path_data;
use glyphsvg::transform::normalize_path;
use kurbo::{Affine, BezPath, PathEl, Point};

fn point(x: i64, y: i64) -> Point {
    Point::new(x as f64 / 65536.0, y as f64 / 65536.0)
}

fn in_floating_point(path: &VectorPath) -> BezPath {
    let elements = path
        .commands
        .iter()
        .map(|command| match *command {
            PathCommand::MoveTo { x, y } => PathEl::MoveTo(point(x, y)),
            PathCommand::LineTo { x, y } => PathEl::LineTo(point(x, y)),
            PathCommand::QuadTo { cx, cy, x, y } => PathEl::QuadTo(point(cx, cy), point(x, y)),
            PathCommand::CubicTo { c1x, c1y, c2x, c2y, x, y } => {
                PathEl::CurveTo(point(c1x, c1y), point(c2x, c2y), point(x, y))
            }
            PathCommand::Close => PathEl::ClosePath,
        })
        .collect();
    BezPath::from_vec(elements)
}

fn flipped_in_floating_point(path: &VectorPath, units_per_em: u16) -> BezPath {
    let mut flipped = in_floating_point(path);
    flipped.apply_affine(Affine::FLIP_Y.then_translate((0.0, units_per_em as f64).into()));
    flipped
}

/// A fixed sequence of numbers that looks arbitrary.
struct Numbers(u64);

impl Numbers {
    fn next(&mut self) -> u64 {
        self.0 = self.0.wrapping_mul(6364136223846793005).wrapping_add(1442695040888963407);
        self.0 >> 16
    }

    /// A coordinate within 32768 font units that is a multiple of `grain`.
    fn coordinate(&mut self, grain: i64) -> i64 {
        let steps = (1i64 << 32) / grain;
        ((self.next() % steps as u64) as i64 - steps / 2) * grain
    }

    /// A path of closed contours with every kind of command.
    fn path(&mut self, grain: i64) -> VectorPath {
        let mut commands = Vec::new();
        for _ in 0..1 + self.next() % 4 {
            commands.push(PathCommand::MoveTo { x: self.coordinate(grain), y: self.coordinate(grain) });
            for _ in 0..self.next() % 6 {
                commands.push(match self.next() % 3 {
                    0 => PathCommand::LineTo { x: self.coordinate(grain), y: self.coordinate(grain) },
                    1 => PathCommand::QuadTo {
                        cx: self.coordinate(grain),
                        cy: self.coordinate(grain),
                        x: self.coordinate(grain),
                        y: self.coordinate(grain),
                    },
                    _ => PathCommand::CubicTo {
                        c1x: self.coordinate(grain),
                        c1y: self.coordinate(grain),
                        c2x: self.coordinate(grain),
                        c2y: self.coordinate(grain),
                        x: self.coordinate(grain),
                        y: self.coordinate(grain),
                    },
                });
            }
            commands.push(PathCommand::Close);
        }
        VectorPath { commands }
    }
}

#[test]
fn path_data_in_64ths_is_the_text_kurbo_writes() {
    let mut numbers = Numbers(1);
    for _ in 0..500 {
        let path = numbers.path(1024);
        assert_eq!(path_data(&path), in_floating_point(&path).to_svg());
    }
}

#[test]
fn flipped_path_in_64ths_is_the_text_kurbo_writes() {
    let mut numbers = Numbers(2);
    for units_per_em in [1u16, 16, 1000, 1024, 2048, 4096, 16384, u16::MAX] {
        for _ in 0..100 {
            let path = numbers.path(1024);
            assert_eq!(
                path_data(&normalize_path(&path, units_per_em)),
                flipped_in_floating_point(&path, units_per_em).to_svg()
            );
        }
    }
}

#[test]
fn whole_coordinates_are_the_text_kurbo_writes() {
    let mut numbers = Numbers(3);
    for _ in 0..200 {
        let path = numbers.path(65536);
        assert_eq!(
            path_data(&normalize_path(&path, 1000)),
            flipped_in_floating_point(&path, 1000).to_svg()
        );
    }
}

#[test]
fn kurbo_reads_path_data_back_as_the_same_path() {
    let mut numbers = Numbers(4);
    for grain in [1i64, 2, 16, 1024] {
        for _ in 0..200 {
            let path = numbers.path(grain);
            assert_eq!(BezPath::from_svg(&path_data(&path)).unwrap(), in_floating_point(&path));
        }
    }
}

#[test]
fn kurbo_reads_flipped_path_data_back_as_the_path_it_flips_to() {
    let mut numbers = Numbers(5);
    for units_per_em in [1u16, 1000, 2048, u16::MAX] {
        for grain in [1i64, 64, 1024] {
            for _ in 0..100 {
                let path = numbers.path(grain);
                assert_eq!(
                    BezPath::from_svg(&path_data(&normalize_path(&path, units_per_em))).unwrap(),
                    flipped_in_floating_point(&path, units_per_em)
                );
            }
        }
    }
}

#[test]
fn rectangle_flips_as_kurbo_flips_it() {
    let unit = 65536;
    let path = VectorPath {
        commands: vec![
            PathCommand::MoveTo { x: 100 * unit, y: 0 },
            PathCommand::LineTo { x: 900 * unit, y: 0 },
            PathCommand::LineTo { x: 900 * unit, y: 700 * unit },
            PathCommand::LineTo { x: 100 * unit, y: 700 * unit },
            PathCommand::Close,
        ],
    };
    let by_kurbo = flipped_in_floating_point(&path, 1000).to_svg();
    assert_eq!(by_kurbo, "M100,1000 L900,1000 L900,300 L100,300 Z");
    assert_eq!(path_data(&normalize_path(&path, 1000)), by_kurbo);
}
