use rayhunter_tools::framebuffer::{
    patterned_line_buffer, pixel_is_lit, Color, Dimensions, GenericFramebuffer, LinePattern,
};

const BLACK: (u8, u8, u8) = (0, 0, 0);

#[test]
fn rgb_values_of_every_color() {
    assert_eq!(Color::Red.rgb(), (0xff, 0, 0));
    assert_eq!(Color::Green.rgb(), (0, 0xff, 0));
    assert_eq!(Color::Blue.rgb(), (0, 0, 0xff));
    assert_eq!(Color::White.rgb(), (0xff, 0xff, 0xff));
    assert_eq!(Color::Black.rgb(), (0, 0, 0));
    assert_eq!(Color::Cyan.rgb(), (0, 0xff, 0xff));
    assert_eq!(Color::Yellow.rgb(), (0xff, 0xff, 0));
    assert_eq!(Color::Pink.rgb(), (0xfe, 0x24, 0xff));
    assert_eq!(Color::Orange.rgb(), (0xff, 0xa5, 0));
}

#[test]
fn pattern_pixels() {
    let dashed: Vec<bool> = (0..10).map(|c| pixel_is_lit(LinePattern::Dashed, c)).collect();
    assert_eq!(
        dashed,
        vec![true, true, true, true, false, false, false, false, true, true]
    );
    let dotted: Vec<bool> = (0..9).map(|c| pixel_is_lit(LinePattern::Dotted, c)).collect();
    assert_eq!(
        dotted,
        vec![true, false, false, false, true, false, false, false, true]
    );
    assert!((0..20).all(|c| pixel_is_lit(LinePattern::Solid, c)));
}

#[test]
fn solid_buffer_is_all_color() {
    let buf = patterned_line_buffer(5, 3, Color::Cyan, LinePattern::Solid);
    assert_eq!(buf.len(), 15);
    assert!(buf.iter().all(|p| *p == (0, 0xff, 0xff)));
}

#[test]
fn dashed_buffer_rows_repeat() {
    let red = (0xff, 0, 0);
    let buf = patterned_line_buffer(10, 2, Color::Red, LinePattern::Dashed);
    let row = vec![red, red, red, red, BLACK, BLACK, BLACK, BLACK, red, red];
    let mut expected = row.clone();
    expected.extend(row);
    assert_eq!(buf, expected);
}

#[test]
fn dotted_buffer_layout() {
    let y = (0xff, 0xff, 0);
    let buf = patterned_line_buffer(6, 1, Color::Yellow, LinePattern::Dotted);
    assert_eq!(buf, vec![y, BLACK, BLACK, BLACK, y, BLACK]);
}

#[test]
fn empty_buffers() {
    assert!(patterned_line_buffer(0, 7, Color::Red, LinePattern::Solid).is_empty());
    assert!(patterned_line_buffer(7, 0, Color::Red, LinePattern::Solid).is_empty());
}

struct Recorder {
    width: u32,
    written: Vec<Vec<(u8, u8, u8)>>,
}

impl GenericFramebuffer for Recorder {
    fn spec_dimensions(&self) -> Dimensions {
        Dimensions { width: self.width }
    }

    fn shown(&self) -> vstd::seq::Seq<vstd::seq::Seq<(u8, u8, u8)>> {
        unreachable!("a model for verification only")
    }

    fn dimensions(&self) -> Dimensions {
        Dimensions { width: self.width }
    }

    fn write_buffer(&mut self, buffer: Vec<(u8, u8, u8)>) {
        self.written.push(buffer);
    }
}

#[test]
fn draw_line_writes_solid_buffer_of_display_width() {
    let mut fb = Recorder { width: 4, written: Vec::new() };
    fb.draw_line(Color::Pink, 2);
    assert_eq!(fb.written, vec![vec![(0xfe, 0x24, 0xff); 8]]);
}

#[test]
fn draw_patterned_line_writes_pattern() {
    let mut fb = Recorder { width: 9, written: Vec::new() };
    fb.draw_patterned_line(Color::Orange, 1, LinePattern::Dotted);
    let o = (0xff, 0xa5, 0);
    assert_eq!(
        fb.written,
        vec![vec![o, BLACK, BLACK, BLACK, o, BLACK, BLACK, BLACK, o]]
    );
}
