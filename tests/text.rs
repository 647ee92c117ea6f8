use termplt::axes::{Axes, AxesPositioning};
use termplt::common::Color;
use termplt::limits::Limits;
use termplt::line::LineStyle;
use termplt::glyphs::get_bitmap;
use termplt::numfmt::{num_to_str, Decimal};
use termplt::point::Point;
use termplt::text::{Label, Text, TextPositioning, TextStyle};

fn s(number: Decimal, sig_figs: usize) -> String {
    num_to_str(number, sig_figs).into_iter().collect()
}

#[test]
fn num_to_str_within_range_gt_zero() {
    let number = Decimal::new(25, 0);
    let sig_figs: usize = 2;
    let num_str = s(number, sig_figs);

    assert_eq!(num_str, "25");
}

#[test]
fn num_to_str_within_range_lt_zero() {
    let number = Decimal::new(25, 2);
    let sig_figs: usize = 2;
    let num_str = s(number, sig_figs);

    assert_eq!(num_str, "0.25");
}

#[test]
fn num_to_str_lt_min_range() {
    let number = Decimal::new(250505, 9);
    let sig_figs: usize = 2;
    let num_str = s(number, sig_figs);

    assert_eq!(num_str, "2.5e-4");
}

#[test]
fn num_to_str_gt_max_range() {
    let number = Decimal::new(255422323, 2);
    let sig_figs: usize = 2;
    let num_str = s(number, sig_figs);

    assert_eq!(num_str, "2.5e6");
}

#[test]
fn num_to_str_within_range_trailing_zeros() {
    let number = Decimal::new(2001, 4);
    let sig_figs: usize = 2;
    let num_str = s(number, sig_figs);

    assert_eq!(num_str, "0.2");
}

#[test]
fn num_to_str_zero_negative_and_integers() {
    assert_eq!(s(Decimal::new(0, 0), 3), "0");
    assert_eq!(s(Decimal::new(-1125, 1), 3), "-112");
    assert_eq!(s(Decimal::new(-8911, 6), 2), "-8.9e-3");
    assert_eq!(s(Decimal::new(500, 1), 3), "50");
    assert_eq!(s(Decimal::new(1000, 0), 3), "1e3");
}

#[test]
fn glyph_bitmap_is_scaled_padded_and_flipped() {
    let style = TextStyle::new(Color::new(1, 2, 3), 2, 1);
    let b = get_bitmap('-', &style);
    assert_eq!(b.len(), 11 * 2 + 2);
    assert!(b.iter().all(|row| row.len() == 10 * 2 + 2));
    // the dash is on the sixth row from the top, so rows 11 and 12 from the bottom
    let inked: Vec<usize> = (0..b.len()).filter(|&i| b[i].iter().any(|&c| c)).collect();
    assert_eq!(inked, vec![11, 12]);
    assert!(b[11][5] && b[11][16] && !b[11][4] && !b[11][17]);
}

#[test]
fn text_width_is_sum_of_glyphs() {
    let t = Text::new("-1.5e3", TextStyle::default());
    assert_eq!(t.width(), 6 * 12);
    assert_eq!(t.height(), 13);
    assert_eq!(t.chars()[1].value(), '1');
}

#[test]
fn centered_label_masks_each_character() {
    let t = Text::new("10", TextStyle::with_color(Color::new(9, 9, 9)));
    let label = Label::new(t, TextPositioning::Centered(Point::new(50, 50)));
    let masks = label.get_mask();
    assert_eq!(masks.len(), 2);
    assert!(masks.iter().all(|m| m.color == Color::new(9, 9, 9)));
    let l = label.limits();
    assert_eq!(*l.min(), Point::new(38, 44));
    assert_eq!(*l.max(), Point::new(62, 57));
    for m in &masks {
        for p in &m.points {
            assert!(p.x >= 38 && p.x < 62 && p.y >= 44 && p.y < 57);
        }
    }
    let moved = TextPositioning::Centered(Point::new(1, 1)).clone_with(Point::new(7, 8));
    assert_eq!(*moved.point(), Point::new(7, 8));
}

#[test]
fn num_to_str_zero_at_any_scale() {
    assert_eq!(s(Decimal::new(0, 1), 3), "0");
    assert_eq!(s(Decimal::new(0, 7), 2), "0");
}

#[test]
fn num_to_str_counts_figures_from_first_nonzero_digit() {
    assert_eq!(s(Decimal::new(25, 4), 3), "0.0025");
    assert_eq!(s(Decimal::new(12345, 5), 2), "0.12");
    assert_eq!(s(Decimal::new(1, 0), 100), "1");
}

#[test]
fn glyph_four_has_crossbar_on_sixth_row() {
    let style = TextStyle::new(Color::new(0, 0, 0), 1, 0);
    let b = get_bitmap('4', &style);
    // rows counted from the bottom: the crossbar is the sixth row from the top
    assert!(b[5].iter().all(|&c| c));
    assert!(b[6][0] && !b[6][5] && b[6][9]);
    assert!(!b[4][0] && b[4][9]);
}

#[test]
fn tick_labels_show_values_with_graph_decimals() {
    let axes = Axes::new(
        AxesPositioning::XY(LineStyle::Solid { color: Color::new(1, 1, 1), thickness: 1 }),
        TextStyle::with_color(Color::new(1, 1, 1)),
    );
    let canvas = Limits::new(Point::new(50, 50), Point::new(150, 150));
    let data = Limits::new(Point::new(0, -50), Point::new(100, 50));
    let labels = axes.get_labels(&canvas, &data, 2);
    assert_eq!(labels.len(), 22);
    let text = |i: usize| -> String { labels[i].txt().chars().iter().map(|c| c.value()).collect() };
    assert_eq!(text(0), "0");
    assert_eq!(text(1), "0.1");
    assert_eq!(text(10), "1");
    assert_eq!(text(11), "-0.5");
    assert_eq!(text(16), "0");
}
