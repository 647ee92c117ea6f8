use crate::common::{Color, MaskPoints};
use crate::glyphs::{bitmap_cell, bitmap_height, bitmap_width, get_bitmap, glyph_fits, has_glyph};
use crate::limits::Limits;
use crate::numfmt::{all_glyphs, num_str, num_to_str, Decimal};
use crate::point::{sat_point, to_u32_saturating, Point};
use vstd::prelude::*;

verus! {

/// How text is drawn: its color, an integer scale of at least one, and blank padding in
/// pixels on every side of each glyph.
#[derive(Debug, Clone, Copy, PartialEq, Eq)]
pub struct TextStyle {
    pub color: Color,
    pub scale: usize,
    pub padding: usize,
}

impl TextStyle {
    /// A style of the given color, scale and padding; the scale must be at least one.
    pub fn new(color: Color, scale: usize, padding: usize) -> (r: TextStyle)
        requires
            scale >= 1,
        ensures
            r == (TextStyle { color, scale, padding }),
    {
        TextStyle { color, scale, padding }
    }

    /// Black text at scale one with one pixel of padding.
    pub fn default() -> (r: TextStyle)
        ensures
            r == (TextStyle { color: Color { r: 0, g: 0, b: 0 }, scale: 1, padding: 1 }),
    {
        TextStyle { color: Color::black(), scale: 1, padding: 1 }
    }

    /// Text of the given color at scale one with one pixel of padding.
    pub fn with_color(color: Color) -> (r: TextStyle)
        ensures
            r == (TextStyle { color, scale: 1, padding: 1 }),
    {
        TextStyle { color, scale: 1, padding: 1 }
    }

    pub fn color(&self) -> (r: Color)
        ensures
            r == self.color,
    {
        self.color
    }

    pub fn scale(&self) -> (r: usize)
        ensures
            r == self.scale,
    {
        self.scale
    }

    pub fn padding(&self) -> (r: usize)
        ensures
            r == self.padding,
    {
        self.padding
    }
}

/// One character of text with its rendered bitmap, row 0 at the bottom.
#[derive(Debug, Clone)]
pub struct TextChar {
    pub value: char,
    pub bitmap: Vec<Vec<bool>>,
}

/// The pixel of bitmap cell `(i, j)` of a glyph whose lower-left corner is `ll`.
pub open spec fn glyph_pixel(ll: Point<i64>, i: int, j: int) -> Point<u32> {
    sat_point(ll.x + j, ll.y + i)
}

/// Coordinates small enough that a glyph's pixels never leave the `i64` range.
pub open spec fn anchor_fits(ll: Point<i64>) -> bool {
    -0x1_0000_0000_0000 <= ll.x <= 0x1_0000_0000_0000 && -0x1_0000_0000_0000 <= ll.y
        <= 0x1_0000_0000_0000
}

/// The pixels of the inked cells of row `i`, left to right.
pub open spec fn row_points(row: Seq<bool>, i: int, ll: Point<i64>) -> Seq<Point<u32>>
    decreases row.len(),
{
    if row.len() == 0 {
        Seq::empty()
    } else {
        let prev = row_points(row.drop_last(), i, ll);
        if row.last() {
            prev.push(glyph_pixel(ll, i, row.len() - 1))
        } else {
            prev
        }
    }
}

/// The pixels of the inked cells of a bitmap, row by row from row 0.
pub open spec fn bitmap_points(rows: Seq<Seq<bool>>, ll: Point<i64>) -> Seq<Point<u32>>
    decreases rows.len(),
{
    if rows.len() == 0 {
        Seq::empty()
    } else {
        bitmap_points(rows.drop_last(), ll) + row_points(rows.last(), rows.len() - 1, ll)
    }
}

impl TextChar {
    /// The bitmap is the glyph for `value` rendered in `style`.
    pub open spec fn renders(&self, style: TextStyle) -> bool {
        &&& has_glyph(self.value)
        &&& self.bitmap@.len() == bitmap_height(style)
        &&& forall|i: int|
            0 <= i < self.bitmap@.len() ==> (#[trigger] self.bitmap@[i])@.len() == bitmap_width(
                style,
            )
        &&& forall|i: int, j: int|
            0 <= i < self.bitmap@.len() && 0 <= j < bitmap_width(style) ==> #[trigger] self.bitmap@[i]@[j]
                == bitmap_cell(self.value, style, i, j)
    }

    /// The rows of the bitmap.
    pub open spec fn rows(&self) -> Seq<Seq<bool>> {
        self.bitmap@.map_values(|r: Vec<bool>| r@)
    }

    /// `m` paints, in `color`, the inked cells of the bitmap placed with its lower-left corner
    /// at `ll`, row by row from the bottom, left to right.
    pub open spec fn is_mask_at(&self, m: MaskPoints, ll: Point<i64>, color: Color) -> bool {
        &&& m.color == color
        &&& m.points@ == bitmap_points(self.rows(), ll)
    }

    /// The character rendered in `style`; it must have a glyph.
    pub fn new(value: char, style: &TextStyle) -> (r: TextChar)
        requires
            has_glyph(value),
            glyph_fits(*style),
        ensures
            r.value == value,
            r.renders(*style),
    {
        TextChar { value, bitmap: get_bitmap(value, style) }
    }

    /// The width of the bitmap.
    pub fn width(&self) -> (r: usize)
        ensures
            self.bitmap@.len() == 0 ==> r == 0,
            self.bitmap@.len() > 0 ==> r == self.bitmap@[0]@.len(),
    {
        if self.bitmap.len() == 0 {
            0
        } else {
            self.bitmap[0].len()
        }
    }

    pub fn height(&self) -> (r: usize)
        ensures
            r == self.bitmap@.len(),
    {
        self.bitmap.len()
    }

    pub fn value(&self) -> (r: char)
        ensures
            r == self.value,
    {
        self.value
    }

    /// The inked pixels of the character with its lower-left corner at `lower_left`, in the
    /// style's color.
    pub fn get_mask(&self, lower_left: Point<i64>, style: &TextStyle) -> (r: Vec<MaskPoints>)
        requires
            anchor_fits(lower_left),
            self.bitmap@.len() <= 0x100_0000,
            forall|i: int| 0 <= i < self.bitmap@.len() ==> (#[trigger] self.bitmap@[i])@.len() <= 0x100_0000,
        ensures
            r@.len() == 1,
            self.is_mask_at(r@[0], lower_left, style.color),
    {
        let mut points: Vec<Point<u32>> = Vec::new();
        let mut i: usize = 0;
        while i < self.bitmap.len()
            invariant
                i <= self.bitmap@.len(),
                anchor_fits(lower_left),
                self.bitmap@.len() <= 0x100_0000,
                forall|ii: int| 0 <= ii < self.bitmap@.len() ==> (#[trigger] self.bitmap@[ii])@.len() <= 0x100_0000,
                points@ == bitmap_points(self.rows().take(i as int), lower_left),
            decreases self.bitmap@.len() - i,
        {
            let row = &self.bitmap[i];
            let ghost base = points@;
            let mut j: usize = 0;
            while j < row.len()
                invariant
                    i < self.bitmap@.len(),
                    *row == self.bitmap@[i as int],
                    j <= row@.len(),
                    anchor_fits(lower_left),
                    row@.len() <= 0x100_0000,
                    self.bitmap@.len() <= 0x100_0000,
                    points@ == base + row_points(row@.take(j as int), i as int, lower_left),
                decreases row@.len() - j,
            {
                proof {
                    let t = row@.take(j as int + 1);
                    assert(t.drop_last() == row@.take(j as int));
                    assert(t.last() == row@[j as int]);
                }
                if row[j] {
                    let p = Point::new(
                        to_u32_saturating(lower_left.x + j as i64),
                        to_u32_saturating(lower_left.y + i as i64),
                    );
                    points.push(p);
                }
                j = j + 1;
            }
            proof {
                assert(row@.take(row@.len() as int) == row@);
                let t = self.rows().take(i as int + 1);
                assert(t.drop_last() == self.rows().take(i as int));
                assert(t.last() == row@);
            }
            i = i + 1;
        }
        proof {
            assert(self.rows().take(self.bitmap@.len() as int) == self.rows());
        }
        let mut r: Vec<MaskPoints> = Vec::new();
        r.push(MaskPoints { points, color: style.color });
        r
    }
}

/// Text: a row of characters, rendered in one style.
#[derive(Debug, Clone)]
pub struct Text {
    pub style: TextStyle,
    pub chars: Vec<TextChar>,
    pub width: usize,
    pub height: usize,
}

impl Text {
    /// The characters are rendered in the text's style, side by side: the width is the sum of
    /// theirs, the height that of one glyph.
    pub open spec fn wf(&self) -> bool {
        &&& glyph_fits(self.style)
        &&& 1 <= self.chars@.len()
        &&& self.width <= u32::MAX
        &&& forall|k: int| 0 <= k < self.chars@.len() ==> (#[trigger] self.chars@[k]).renders(self.style)
        &&& self.width == self.chars@.len() * bitmap_width(self.style)
        &&& self.height == bitmap_height(self.style)
    }

    /// The characters of `text` as a string of glyph characters.
    pub open spec fn spells(&self, text: Seq<char>) -> bool {
        &&& self.chars@.len() == text.len()
        &&& forall|k: int| 0 <= k < text.len() ==> (#[trigger] self.chars@[k]).value == text[k]
    }

    /// Text of the given characters, each of which must have a glyph. Its width in pixels
    /// must fit a pixel coordinate.
    pub fn from_chars(text: &Vec<char>, style: TextStyle) -> (r: Text)
        requires
            1 <= text@.len(),
            text@.len() * bitmap_width(style) <= u32::MAX,
            all_glyphs(text@),
            glyph_fits(style),
        ensures
            r.wf(),
            r.style == style,
            r.spells(text@),
    {
        let mut chars: Vec<TextChar> = Vec::new();
        let mut i: usize = 0;
        while i < text.len()
            invariant
                i <= text@.len(),
                all_glyphs(text@),
                glyph_fits(style),
                chars@.len() == i,
                forall|k: int| 0 <= k < i ==> (#[trigger] chars@[k]).renders(style) && chars@[k].value
                    == text@[k],
            decreases text@.len() - i,
        {
            chars.push(TextChar::new(text[i], &style));
            i = i + 1;
        }
        let w = glyph_width(&style);
        proof {
            assert(chars@.len() * bitmap_width(style) <= u32::MAX);
        }
        let width = chars.len() * w;
        let height = crate::glyphs::CHAR_HEIGHT * style.scale + 2 * style.padding;
        Text { style, chars, width, height }
    }

    /// Text of the characters of `text`, each of which must have a glyph. Its width in pixels
    /// must fit a pixel coordinate.
    pub fn new(text: &str, style: TextStyle) -> (r: Text)
        requires
            1 <= text@.len(),
            text@.len() * bitmap_width(style) <= u32::MAX,
            all_glyphs(text@),
            glyph_fits(style),
        ensures
            r.wf(),
            r.style == style,
            r.spells(text@),
    {
        let n = text.unicode_len();
        let mut cs: Vec<char> = Vec::new();
        let mut i: usize = 0;
        while i < n
            invariant
                i <= n,
                n == text@.len(),
                cs@ == text@.subrange(0, i as int),
            decreases n - i,
        {
            cs.push(text.get_char(i));
            proof {
                assert(text@.subrange(0, i + 1) == text@.subrange(0, i as int).push(text@[i as int]));
            }
            i = i + 1;
        }
        proof {
            assert(text@.subrange(0, n as int) == text@);
        }
        Text::from_chars(&cs, style)
    }

    pub fn height(&self) -> (r: usize)
        ensures
            r == self.height,
    {
        self.height
    }

    pub fn width(&self) -> (r: usize)
        ensures
            r == self.width,
    {
        self.width
    }

    pub fn chars(&self) -> (r: &[TextChar])
        ensures
            r@ == self.chars@,
    {
        self.chars.as_slice()
    }

    /// `number` written to `sig_figs` significant figures (see
    /// [`crate::numfmt::num_to_str`]) as text. The longest such text, of `sig_figs + 80`
    /// characters, must fit a pixel coordinate in width.
    pub fn from_number(number: Decimal, sig_figs: usize, style: TextStyle) -> (r: Text)
        requires
            1 <= sig_figs,
            (sig_figs + 80) * bitmap_width(style) <= u32::MAX,
            glyph_fits(style),
        ensures
            r.wf(),
            r.style == style,
            r.spells(num_str(number, sig_figs as int)),
    {
        let s = num_to_str(number, sig_figs);
        proof {
            assert(s@.len() * bitmap_width(style) <= (sig_figs + 80) * bitmap_width(style)) by (nonlinear_arith)
                requires
                    s@.len() <= sig_figs + 80,
                    bitmap_width(style) >= 0,
            ;
        }
        Text::from_chars(&s, style)
    }
}

/// Width of one rendered glyph.
fn glyph_width(style: &TextStyle) -> (r: usize)
    requires
        glyph_fits(*style),
    ensures
        r == bitmap_width(*style),
{
    crate::glyphs::CHAR_WIDTH * style.scale + 2 * style.padding
}

/// Where a label stands.
#[derive(Debug, Clone, Copy, PartialEq, Eq)]
pub enum TextPositioning {
    /// The text's centre is at the point.
    Centered(Point<u32>),
    /// The text's lower-left corner is at the point.
    LeftAligned(Point<u32>),
}

impl TextPositioning {
    pub open spec fn point_spec(self) -> Point<u32> {
        match self {
            TextPositioning::Centered(p) => p,
            TextPositioning::LeftAligned(p) => p,
        }
    }

    /// The same kind of positioning at another point.
    pub fn clone_with(&self, new_point: Point<u32>) -> (r: TextPositioning)
        ensures
            r.point_spec() == new_point,
            (self is Centered) == (r is Centered),
    {
        match self {
            TextPositioning::Centered(_) => TextPositioning::Centered(new_point),
            TextPositioning::LeftAligned(_) => TextPositioning::LeftAligned(new_point),
        }
    }

    pub fn point(&self) -> (r: &Point<u32>)
        ensures
            *r == self.point_spec(),
    {
        match self {
            TextPositioning::Centered(p) => p,
            TextPositioning::LeftAligned(p) => p,
        }
    }
}

/// Text placed on a canvas.
#[derive(Debug, Clone)]
pub struct Label {
    pub txt: Text,
    pub pos: TextPositioning,
}

impl Label {
    /// The lower-left corner of the whole text.
    pub open spec fn lower_left(&self) -> Point<i64> {
        let p = self.pos.point_spec();
        match self.pos {
            TextPositioning::Centered(_) => Point {
                x: (p.x - self.txt.width / 2) as i64,
                y: (p.y - self.txt.height / 2) as i64,
            },
            TextPositioning::LeftAligned(_) => Point { x: p.x as i64, y: p.y as i64 },
        }
    }

    /// The lower-left corner of the `k`-th character: the characters stand side by side.
    pub open spec fn char_lower_left(&self, k: int) -> Point<i64> {
        let ll = self.lower_left();
        Point { x: (ll.x + k * bitmap_width(self.txt.style)) as i64, y: ll.y }
    }

    pub fn new(txt: Text, pos: TextPositioning) -> (r: Label)
        ensures
            r.txt == txt,
            r.pos == pos,
    {
        Label { txt, pos }
    }

    pub fn txt(&self) -> (r: &Text)
        ensures
            *r == self.txt,
    {
        &self.txt
    }

    pub fn pos(&self) -> (r: &TextPositioning)
        ensures
            *r == self.pos,
    {
        &self.pos
    }

    /// The box the text covers: around the centre, half the size rounded down below and to
    /// the left and rounded up above and to the right; or up and right from a left-aligned
    /// corner.
    pub fn limits(&self) -> (r: Limits)
        requires
            self.txt.wf(),
            self.pos.point_spec().x + self.txt.width <= i32::MAX,
            self.pos.point_spec().y + self.txt.height <= i32::MAX,
        ensures
            r.wf(),
            r.lo().x == self.lower_left().x,
            r.lo().y == self.lower_left().y,
            r.hi().x == self.lower_left().x + self.txt.width,
            r.hi().y == self.lower_left().y + self.txt.height,
    {
        let p = *self.pos.point();
        let w = self.txt.width as i64;
        let h = self.txt.height as i64;
        let (lx, ly) = match self.pos {
            TextPositioning::Centered(_) => (p.x as i64 - w / 2, p.y as i64 - h / 2),
            TextPositioning::LeftAligned(_) => (p.x as i64, p.y as i64),
        };
        Limits::new(
            Point::new(lx as i32, ly as i32),
            Point::new((lx + w) as i32, (ly + h) as i32),
        )
    }

    /// The text's masks, one per character, each character's glyph at its place.
    pub fn get_mask(&self) -> (r: Vec<MaskPoints>)
        requires
            self.txt.wf(),
        ensures
            r@.len() == self.txt.chars@.len(),
            forall|k: int|
                0 <= k < r@.len() ==> self.txt.chars@[k].is_mask_at(
                    #[trigger] r@[k],
                    self.char_lower_left(k),
                    self.txt.style.color,
                ),
    {
        let p = *self.pos.point();
        let w = self.txt.width as i64;
        let h = self.txt.height as i64;
        let (lx, ly) = match self.pos {
            TextPositioning::Centered(_) => (p.x as i64 - w / 2, p.y as i64 - h / 2),
            TextPositioning::LeftAligned(_) => (p.x as i64, p.y as i64),
        };
        let cw = glyph_width(&self.txt.style) as i64;
        proof {
            assert(lx == self.lower_left().x);
            assert(ly == self.lower_left().y);
        }
        let mut masks: Vec<MaskPoints> = Vec::new();
        let mut k: usize = 0;
        while k < self.txt.chars.len()
            invariant
                self.txt.wf(),
                k <= self.txt.chars@.len(),
                lx == self.lower_left().x,
                ly == self.lower_left().y,
                -0x1_0000_0000 <= lx <= 0x1_0000_0000,
                -0x1_0000_0000 <= ly <= 0x1_0000_0000,
                cw == bitmap_width(self.txt.style),
                masks@.len() == k,
                forall|kk: int|
                    0 <= kk < k ==> self.txt.chars@[kk].is_mask_at(
                        #[trigger] masks@[kk],
                        self.char_lower_left(kk),
                        self.txt.style.color,
                    ),
            decreases self.txt.chars@.len() - k,
        {
            proof {
                assert(k * cw <= self.txt.chars@.len() * cw) by (nonlinear_arith)
                    requires
                        k <= self.txt.chars@.len(),
                        cw >= 0,
                ;
                assert(self.txt.chars@.len() <= self.txt.chars@.len() * cw) by (nonlinear_arith)
                    requires
                        cw >= 1,
                ;
                assert(self.txt.chars@.len() * cw == self.txt.width);
                assert(0 <= k * cw) by (nonlinear_arith)
                    requires
                        cw >= 0,
                ;
            }
            let ll = Point::new(lx + k as i64 * cw, ly);
            let c = &self.txt.chars[k];
            proof {
                assert(ll == self.char_lower_left(k as int));
                assert(c.renders(self.txt.style));
            }
            let mut m = c.get_mask(ll, &self.txt.style);
            masks.push(m.pop().unwrap());
            k = k + 1;
        }
        masks
    }
}

} // verus!
