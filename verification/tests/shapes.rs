use pacman::block::{Block, BlockStyle};
use pacman::graphics::{Graphics, Line};

fn segments_of(style: BlockStyle) -> Vec<Line> {
    let mut b = Block::new("block", 0, 0, style);
    b.start();
    match b.get_graphics() {
        Graphics::Line(lines) => {
            let mut out: Vec<Line> = Vec::new();
            for l in lines.iter() {
                out.push(l.clone());
            }
            out
        }
        Graphics::Image { .. } => panic!("block should render as lines"),
    }
}

fn assert_segments(style: BlockStyle, expected: &[((i32, i32), (i32, i32))]) {
    let lines = segments_of(style);
    assert_eq!(lines.len(), expected.len());
    for (line, (start, end)) in lines.iter().zip(expected.iter()) {
        assert_eq!(line.start, *start);
        assert_eq!(line.end, *end);
    }
}

#[test]
fn full_segments() {
    assert_segments(
        BlockStyle::Full,
        &[((7, 7), (25, 7)), ((7, 7), (7, 25)), ((25, 7), (25, 25)), ((7, 25), (25, 25))],
    );
}

#[test]
fn top_segments() {
    assert_segments(
        BlockStyle::Top,
        &[((7, 0), (7, 25)), ((25, 0), (25, 25)), ((7, 25), (25, 25))],
    );
}

#[test]
fn bottom_segments() {
    assert_segments(
        BlockStyle::Bottom,
        &[((7, 7), (25, 7)), ((7, 7), (7, 32)), ((25, 7), (25, 32))],
    );
}

#[test]
fn left_segments() {
    assert_segments(
        BlockStyle::Left,
        &[((0, 7), (25, 7)), ((25, 7), (25, 25)), ((0, 25), (25, 25))],
    );
}

#[test]
fn right_segments() {
    assert_segments(
        BlockStyle::Right,
        &[((7, 7), (32, 7)), ((7, 7), (7, 25)), ((7, 25), (32, 25))],
    );
}

#[test]
fn top_bottom_segments() {
    assert_segments(BlockStyle::TopBottom, &[((7, 0), (7, 32)), ((25, 0), (25, 32))]);
}

#[test]
fn left_right_segments() {
    assert_segments(BlockStyle::LeftRight, &[((0, 7), (32, 7)), ((0, 25), (32, 25))]);
}

#[test]
fn bottom_right_segments() {
    assert_segments(
        BlockStyle::BottomRight,
        &[((7, 7), (32, 7)), ((7, 7), (7, 32)), ((25, 25), (25, 32)), ((25, 25), (32, 25))],
    );
}

#[test]
fn bottom_left_segments() {
    assert_segments(
        BlockStyle::BottomLeft,
        &[((0, 7), (25, 7)), ((0, 25), (7, 25)), ((7, 25), (7, 32)), ((25, 7), (25, 32))],
    );
}

#[test]
fn top_right_segments() {
    assert_segments(
        BlockStyle::TopRight,
        &[((7, 0), (7, 25)), ((7, 25), (32, 25)), ((25, 0), (25, 7)), ((25, 7), (32, 7))],
    );
}

#[test]
fn top_left_segments() {
    assert_segments(
        BlockStyle::TopLeft,
        &[((0, 7), (7, 7)), ((7, 0), (7, 7)), ((25, 0), (25, 25)), ((0, 25), (25, 25))],
    );
}

#[test]
fn shape_generation_is_deterministic() {
    for style in [
        BlockStyle::Full,
        BlockStyle::Top,
        BlockStyle::TopBottom,
        BlockStyle::Bottom,
        BlockStyle::Left,
        BlockStyle::LeftRight,
        BlockStyle::Right,
        BlockStyle::BottomRight,
        BlockStyle::BottomLeft,
        BlockStyle::TopRight,
        BlockStyle::TopLeft,
    ] {
        let a = segments_of(style);
        let b = segments_of(style);
        assert_eq!(a.len(), b.len());
        for (l, m) in a.iter().zip(b.iter()) {
            assert_eq!(l.start, m.start);
            assert_eq!(l.end, m.end);
        }
    }
}

#[test]
fn style_codes_convert() {
    assert!(matches!(BlockStyle::convert('1'), BlockStyle::Full));
    assert!(matches!(BlockStyle::convert('2'), BlockStyle::Top));
    assert!(matches!(BlockStyle::convert('3'), BlockStyle::Bottom));
    assert!(matches!(BlockStyle::convert('4'), BlockStyle::Left));
    assert!(matches!(BlockStyle::convert('5'), BlockStyle::Right));
    assert!(matches!(BlockStyle::convert('6'), BlockStyle::TopBottom));
    assert!(matches!(BlockStyle::convert('7'), BlockStyle::LeftRight));
    assert!(matches!(BlockStyle::convert('8'), BlockStyle::BottomRight));
    assert!(matches!(BlockStyle::convert('9'), BlockStyle::BottomLeft));
    assert!(matches!(BlockStyle::convert('a'), BlockStyle::TopRight));
    assert!(matches!(BlockStyle::convert('b'), BlockStyle::TopLeft));
}

#[test]
fn line_set_pos_translates() {
    let mut line = Line::create((7, 7), (25, 7));
    line.set_pos(64, 96);
    assert_eq!(line.start, (71, 103));
    assert_eq!(line.end, (89, 103));
}
