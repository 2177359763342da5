use glyphsvg::error::VectorDrawableError;
use glyphsvg::instance::{resolve_location, AxisInfo, DesignLocation};
use glyphsvg::path::{BezPen, DrawOutcome, PathCommand, UNIT};
use glyphsvg::pipeline::{outline_svg, select};
use skrifa::instance::{Location, Size};
use skrifa::outline::OutlinePen;
use skrifa::raw::types::F48Dot16;
use skrifa::setting::VariationSetting;
use skrifa::{FontRef, GlyphId, MetadataProvider, Tag};

fn be16(out: &mut Vec<u8>, v: u16) {
    out.extend_from_slice(&v.to_be_bytes());
}

fn be32(out: &mut Vec<u8>, v: u32) {
    out.extend_from_slice(&v.to_be_bytes());
}

fn words(values: &[u16]) -> Vec<u8> {
    let mut t = Vec::new();
    for v in values {
        be16(&mut t, *v);
    }
    t
}

/// Takes the space to glyph 2, the letter A to glyph 1 and the letter B to
/// glyph 3.
fn cmap_table() -> Vec<u8> {
    let mut t = words(&[0, 1, 3, 10]);
    be32(&mut t, 12);
    t.extend(words(&[12, 0]));
    be32(&mut t, 52);
    be32(&mut t, 0);
    be32(&mut t, 3);
    for (first, last, glyph) in [(0x20u32, 0x20u32, 2u32), (0x41, 0x41, 1), (0x42, 0x42, 3)] {
        be32(&mut t, first);
        be32(&mut t, last);
        be32(&mut t, glyph);
    }
    t
}

/// One axis, `wght`, from 100 over 400 to 900.
fn fvar_table() -> Vec<u8> {
    let mut t = words(&[1, 0, 16, 2, 1, 20, 0, 8]);
    t.extend_from_slice(b"wght");
    be32(&mut t, 100 << 16);
    be32(&mut t, 400 << 16);
    be32(&mut t, 900 << 16);
    t.extend(words(&[0, 256]));
    t
}

/// A rectangle from (100, 0) to (900, 700), drawn counter-clockwise.
fn rectangle_glyph() -> Vec<u8> {
    let mut t = words(&[1, 100, 0, 900, 700, 3, 0]);
    t.extend_from_slice(&[1, 1, 1, 1]);
    t.extend(words(&[100, 800, 0, (-800i16) as u16]));
    t.extend(words(&[0, 0, 700, 0]));
    t.extend_from_slice(&[0, 0]);
    t
}

/// An arch from (0, 0) to (300, 0) over the control points (100, 101) and
/// (201, 100), between which lies an implied point at half units.
fn arch_glyph() -> Vec<u8> {
    let mut t = words(&[1, 0, 0, 300, 101, 3, 0]);
    t.extend_from_slice(&[1, 0, 0, 1]);
    t.extend(words(&[0, 100, 101, 99]));
    t.extend(words(&[0, 101, (-1i16) as u16, (-100i16) as u16]));
    t.extend_from_slice(&[0, 0]);
    t
}

fn glyf_table() -> Vec<u8> {
    let mut t = rectangle_glyph();
    t.extend(arch_glyph());
    t
}

fn head_table(units_per_em: u16) -> Vec<u8> {
    let mut t = words(&[1, 0]);
    be32(&mut t, 0x0001_0000);
    be32(&mut t, 0);
    be32(&mut t, 0x5F0F_3CF5);
    t.extend(words(&[0, units_per_em]));
    t.extend_from_slice(&[0u8; 16]);
    t.extend(words(&[0, 0, 1000, 1000, 0, 8, 2, 1, 0]));
    t
}

fn hhea_table() -> Vec<u8> {
    let mut t = Vec::new();
    be32(&mut t, 0x0001_0000);
    t.extend(words(&[800, (-200i16) as u16, 0, 1000, 0, 0, 1000, 1, 0, 0, 0, 0, 0, 0, 0, 4]));
    t
}

fn hmtx_table() -> Vec<u8> {
    words(&[500, 0, 1000, 100, 250, 0, 300, 0])
}

fn loca_table() -> Vec<u8> {
    let mut t = Vec::new();
    for offset in [0u32, 0, 36, 36, 72] {
        be32(&mut t, offset);
    }
    t
}

fn maxp_table() -> Vec<u8> {
    let mut t = Vec::new();
    be32(&mut t, 0x0001_0000);
    t.extend(words(&[4, 4, 1, 0, 0, 1, 0, 0, 0, 0, 0, 0, 0, 0]));
    t
}

fn font_file(tables: &[(&[u8; 4], Vec<u8>)]) -> Vec<u8> {
    let mut out = Vec::new();
    be32(&mut out, 0x0001_0000);
    be16(&mut out, tables.len() as u16);
    out.extend(words(&[0, 0, 0]));
    let mut offset = 12 + 16 * tables.len();
    for (tag, table) in tables {
        out.extend_from_slice(&tag[..]);
        be32(&mut out, 0);
        be32(&mut out, offset as u32);
        be32(&mut out, table.len() as u32);
        offset += (table.len() + 3) / 4 * 4;
    }
    for (_, table) in tables {
        out.extend_from_slice(table);
        while out.len() % 4 != 0 {
            out.push(0);
        }
    }
    out
}

fn font(units_per_em: u16) -> Vec<u8> {
    font_file(&[
        (b"cmap", cmap_table()),
        (b"fvar", fvar_table()),
        (b"glyf", glyf_table()),
        (b"head", head_table(units_per_em)),
        (b"hhea", hhea_table()),
        (b"hmtx", hmtx_table()),
        (b"loca", loca_table()),
        (b"maxp", maxp_table()),
    ])
}

fn read_number(text: &str) -> Option<u32> {
    text.parse::<f32>().ok().map(f32::to_bits)
}

fn coordinate(value: f32) -> i64 {
    F48Dot16::from_f64(f64::from(value)).to_bits()
}

struct Pen(BezPen);

impl OutlinePen for Pen {
    fn move_to(&mut self, x: f32, y: f32) {
        self.0.move_to(coordinate(x), coordinate(y));
    }

    fn line_to(&mut self, x: f32, y: f32) {
        self.0.line_to(coordinate(x), coordinate(y));
    }

    fn quad_to(&mut self, cx0: f32, cy0: f32, x: f32, y: f32) {
        self.0.quad_to(coordinate(cx0), coordinate(cy0), coordinate(x), coordinate(y));
    }

    fn curve_to(&mut self, cx0: f32, cy0: f32, cx1: f32, cy1: f32, x: f32, y: f32) {
        self.0.curve_to(
            coordinate(cx0),
            coordinate(cy0),
            coordinate(cx1),
            coordinate(cy1),
            coordinate(x),
            coordinate(y),
        );
    }

    fn close(&mut self) {
        self.0.close();
    }
}

fn axes_of(font: &FontRef) -> Vec<AxisInfo> {
    font.axes()
        .iter()
        .map(|axis| AxisInfo {
            tag: u32::from_be_bytes(axis.tag().to_be_bytes()),
            min: axis.min_value().to_bits(),
            default: axis.default_value().to_bits(),
            max: axis.max_value().to_bits(),
        })
        .collect()
}

fn normalized(font: &FontRef, location: &DesignLocation) -> Location {
    font.axes().location(
        location
            .entries
            .iter()
            .map(|entry| VariationSetting::new(Tag::from_u32(entry.tag), f32::from_bits(entry.value))),
    )
}

fn draw(data: &[u8], position: &str, icon: &str) -> Result<(BezPen, DrawOutcome, u16), VectorDrawableError> {
    let selection = select(data, position, icon, read_number)?;
    let font = FontRef::new(data).unwrap();
    let location = normalized(&font, &resolve_location(&axes_of(&font), &selection.values));
    let mut pen = Pen(BezPen::new());
    let outcome = match font.outline_glyphs().get(GlyphId::new(selection.glyph.value)) {
        None => DrawOutcome::Missing,
        Some(glyph) => match glyph.draw((Size::unscaled(), &location), &mut pen) {
            Ok(_) => DrawOutcome::Drawn,
            Err(_) => DrawOutcome::Failed,
        },
    };
    Ok((pen.0, outcome, selection.units_per_em))
}

fn render(data: &[u8], position: &str, icon: &str) -> Result<String, VectorDrawableError> {
    let (pen, outcome, units_per_em) = draw(data, position, icon)?;
    outline_svg(pen, outcome, units_per_em)
}

#[test]
fn letter_with_a_rectangular_contour_is_written_flipped() {
    assert_eq!(
        render(&font(1000), "", "0x41").unwrap(),
        "<svg viewBox=\"0 0 1000 1000\"  xmlns=\"http://www.w3.org/2000/svg\">\n  <path d=\"M100,1000 L900,1000 L900,300 L100,300 Z\"/>\n</svg>\n"
    );
}

#[test]
fn font_reader_draws_the_rectangle_in_order() {
    let (pen, outcome, units_per_em) = draw(&font(1000), "", "0x41").unwrap();
    assert_eq!(outcome, DrawOutcome::Drawn);
    assert_eq!(units_per_em, 1000);
    assert_eq!(
        pen.into_inner().commands,
        vec![
            PathCommand::MoveTo { x: 100 * UNIT, y: 0 },
            PathCommand::LineTo { x: 900 * UNIT, y: 0 },
            PathCommand::LineTo { x: 900 * UNIT, y: 700 * UNIT },
            PathCommand::LineTo { x: 100 * UNIT, y: 700 * UNIT },
            PathCommand::Close,
        ]
    );
}

#[test]
fn view_box_follows_the_units_per_em() {
    let text = render(&font(2048), "", "0x41").unwrap();
    assert!(text.starts_with("<svg viewBox=\"0 0 2048 2048\""), "{text}");
    assert!(text.contains("d=\"M100,2048 L900,2048 L900,1348 L100,1348 Z\""), "{text}");
}

#[test]
fn space_has_no_outline() {
    assert_eq!(render(&font(1000), "", "0x20").err(), Some(VectorDrawableError::NoOutline));
}

#[test]
fn codepoint_without_glyph_is_unmapped() {
    assert_eq!(render(&font(1000), "", "0x43").err(), Some(VectorDrawableError::UnmappedCodepoint));
}

#[test]
fn decimal_codepoint_is_unsupported() {
    assert_eq!(render(&font(1000), "", "65").err(), Some(VectorDrawableError::UnsupportedCodepointForm));
}

#[test]
fn location_without_value_is_malformed() {
    assert_eq!(render(&font(1000), "wght:", "0x41").err(), Some(VectorDrawableError::MalformedLocation));
}

#[test]
fn axes_of_the_font_are_resolved() {
    let data = font(1000);
    let reader = FontRef::new(&data).unwrap();
    let axes = axes_of(&reader);
    assert_eq!(
        axes,
        vec![AxisInfo {
            tag: u32::from_be_bytes(*b"wght"),
            min: 100.0f32.to_bits(),
            default: 400.0f32.to_bits(),
            max: 900.0f32.to_bits(),
        }]
    );
    let resolve = |position: &str| {
        let values = select(&data, position, "0x41", read_number).unwrap().values;
        let location = resolve_location(&axes, &values);
        (f32::from_bits(location.entries[0].value), normalized(&reader, &location))
    };
    let at = |position: &str| reader.axes().location(
        glyphsvg::location::parse_location(position, read_number)
            .unwrap()
            .iter()
            .map(|v| (v.tag.as_str(), f32::from_bits(v.value)))
            .collect::<Vec<_>>(),
    );
    for (position, value) in [
        ("", 400.0f32),
        ("wght:100,wght:200", 200.0),
        ("zzzz:5", 400.0),
        ("wght:1200", 900.0),
        ("wght:-3", 100.0),
        ("wght:650.5,zzzz:1", 650.5),
    ] {
        let (settled, location) = resolve(position);
        assert_eq!(settled, value, "{position:?}");
        assert_eq!(location, at(position), "{position:?}");
    }
}

#[test]
fn location_does_not_move_a_glyph_without_variations() {
    assert_eq!(render(&font(1000), "wght:900", "0x41"), render(&font(1000), "", "0x41"));
    assert_eq!(render(&font(1000), "zzzz:5", "0x41"), render(&font(1000), "", "0x41"));
}

struct FloatingPen(kurbo::BezPath);

impl OutlinePen for FloatingPen {
    fn move_to(&mut self, x: f32, y: f32) {
        self.0.move_to((x as f64, y as f64));
    }

    fn line_to(&mut self, x: f32, y: f32) {
        self.0.line_to((x as f64, y as f64));
    }

    fn quad_to(&mut self, cx0: f32, cy0: f32, x: f32, y: f32) {
        self.0.quad_to((cx0 as f64, cy0 as f64), (x as f64, y as f64));
    }

    fn curve_to(&mut self, cx0: f32, cy0: f32, cx1: f32, cy1: f32, x: f32, y: f32) {
        self.0.curve_to((cx0 as f64, cy0 as f64), (cx1 as f64, cy1 as f64), (x as f64, y as f64));
    }

    fn close(&mut self) {
        self.0.close_path();
    }
}

/// The document as floating-point path tools write it: the font reader draws
/// into a kurbo path, which is flipped by an affine map and written out.
fn rendered_in_floating_point(data: &[u8], position: &str, codepoint: u32) -> String {
    let font = FontRef::new(data).unwrap();
    let glyph = font.charmap().map(codepoint).unwrap();
    let units_per_em = skrifa::raw::TableProvider::head(&font).unwrap().units_per_em();
    let settings: Vec<(String, f32)> = position
        .split(',')
        .filter(|s| !s.is_empty())
        .map(|s| {
            let (tag, value) = s.split_once(':').unwrap();
            (tag.to_string(), value.parse().unwrap())
        })
        .collect();
    let location = font.axes().location(settings.iter().map(|(tag, value)| (tag.as_str(), *value)));
    let mut pen = FloatingPen(kurbo::BezPath::new());
    font.outline_glyphs().get(glyph).unwrap().draw((Size::unscaled(), &location), &mut pen).unwrap();
    let mut path = pen.0;
    path.apply_affine(kurbo::Affine::FLIP_Y.then_translate((0.0, units_per_em as f64).into()));
    format!(
        "<svg viewBox=\"0 0 {units_per_em} {units_per_em}\"  xmlns=\"http://www.w3.org/2000/svg\">\n  <path d=\"{}\"/>\n</svg>\n",
        path.to_svg()
    )
}

#[test]
fn document_is_the_one_the_floating_point_route_writes() {
    for units_per_em in [1000u16, 2048, 16384] {
        for position in ["", "wght:100,wght:200", "wght:1200", "zzzz:5"] {
            for (icon, codepoint) in [("0x41", 0x41), ("0x42", 0x42)] {
                assert_eq!(
                    render(&font(units_per_em), position, icon).unwrap(),
                    rendered_in_floating_point(&font(units_per_em), position, codepoint),
                    "{units_per_em} {position:?} {icon}"
                );
            }
        }
    }
}

#[test]
fn curves_and_half_units_come_through() {
    let (pen, outcome, _) = draw(&font(1000), "", "0x42").unwrap();
    assert_eq!(outcome, DrawOutcome::Drawn);
    assert_eq!(
        pen.into_inner().commands,
        vec![
            PathCommand::MoveTo { x: 0, y: 0 },
            PathCommand::QuadTo { cx: 100 * UNIT, cy: 101 * UNIT, x: 150 * UNIT + UNIT / 2, y: 100 * UNIT + UNIT / 2 },
            PathCommand::QuadTo { cx: 201 * UNIT, cy: 100 * UNIT, x: 300 * UNIT, y: 0 },
            PathCommand::Close,
        ]
    );
    let text = render(&font(1000), "", "0x42").unwrap();
    assert!(text.contains("d=\"M0,1000 Q100,899 150.5,899.5 Q201,900 300,1000 Z\""), "{text}");
}
