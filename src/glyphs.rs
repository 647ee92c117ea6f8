use crate::text::TextStyle;
use vstd::prelude::*;

verus! {

/// Width of a glyph in cells, once the art is halved.
pub const CHAR_WIDTH: usize = 10;

/// Height of a glyph in cells.
pub const CHAR_HEIGHT: usize = 11;

/// Characters per row of glyph art, the line break included.
pub const ART_ROW: usize = 21;

/// The glyph for zero, at double width.
pub const GLYPH_ZERO: &'static str = "
    000000000000    
  0000000000000000  
0000            0000
0000            0000
0000            0000
0000    0000    0000
0000            0000
0000            0000
0000            0000
  0000000000000000  
    000000000000    ";

/// The glyph for one, at double width.
pub const GLYPH_ONE: &'static str = "
    11111111        
  1111  1111        
1111    1111        
1111    1111        
        1111        
        1111        
        1111        
        1111        
        1111        
        1111        
11111111111111111111";

/// The glyph for two, at double width.
pub const GLYPH_TWO: &'static str = "
  2222222222222222  
22222222    22222222
222222        222222
            222222  
          222222    
        222222      
      222222        
    222222          
  222222            
222222              
22222222222222222222";

/// The glyph for three, at double width.
pub const GLYPH_THREE: &'static str = "
33333333333333333333
            33333333
          333333    
        333333      
      333333        
        333333      
          333333    
            333333  
333333        333333
  333333      333333
    33333333333333  ";

/// The glyph for four, at double width.
pub const GLYPH_FOUR: &'static str = "
4444            4444
4444            4444
4444            4444
4444            4444
4444            4444
44444444444444444444
                4444
                4444
                4444
                4444
                4444";

/// The glyph for five, at double width.
pub const GLYPH_FIVE: &'static str = "
55555555555555555555
5555                
5555                
555555555555        
        55555555    
            55555555
              555555
                5555
                5555
5555            5555
    555555555555    ";

/// The glyph for six, at double width.
pub const GLYPH_SIX: &'static str = "
              666666
            666666  
          666666    
        666666      
      66666666      
  6666666666666666  
66666666    66666666
666666        666666
666666        666666
  666666    666666  
    666666666666    ";

/// The glyph for seven, at double width.
pub const GLYPH_SEVEN: &'static str = "
77777777777777777777
7777          777777
              777777
            777777  
            777777  
          777777    
        777777      
      777777        
    777777          
  777777            
777777              ";

/// The glyph for eight, at double width.
pub const GLYPH_EIGHT: &'static str = "
    888888888888    
888888        888888
888888        888888
888888        888888
    888888888888    
888888        888888
888888        888888
888888        888888
888888        888888
888888        888888
    888888888888    ";

/// The glyph for nine, at double width.
pub const GLYPH_NINE: &'static str = "
    999999999999    
999999        999999
999999        999999
999999        999999
999999        999999
    999999999999    
        999999      
      999999        
    999999          
  999999            
999999              ";

/// The glyph for space, at double width.
pub const GLYPH_SPACE: &'static str = "
                    
                    
                    
                    
                    
                    
                    
                    
                    
                    
                    ";

/// The glyph for decimal, at double width.
pub const GLYPH_DECIMAL: &'static str = "
                    
                    
                    
                    
                    
                    
                    
                    
      00000000      
      00000000      
      00000000      ";

/// The glyph for dash, at double width.
pub const GLYPH_DASH: &'static str = "
                    
                    
                    
                    
                    
    000000000000    
                    
                    
                    
                    
                    ";

/// The glyph for e, at double width.
pub const GLYPH_E: &'static str = "
                    
                    
                    
                    
    eeeeeeeeeeee    
  eeee        eeee  
eeee            eeee
eeeeeeeeeeeeeeeeeeee
eeee                
  eeee        eeee  
    eeeeeeeeeeee    ";

/// Whether a glyph exists for `c`: digits, space, `.`, `-` and `e`.
pub open spec fn has_glyph(c: char) -> bool {
    ('0' <= c && c <= '9') || c == ' ' || c == '.' || c == '-' || c == 'e'
}

/// The art of the glyph for `c`: a line break, then `CHAR_HEIGHT` rows of double-width
/// cells, top row first, separated by line breaks.
pub open spec fn glyph_art(c: char) -> Seq<char> {
    if c == '0' {
        GLYPH_ZERO@
    } else if c == '1' {
        GLYPH_ONE@
    } else if c == '2' {
        GLYPH_TWO@
    } else if c == '3' {
        GLYPH_THREE@
    } else if c == '4' {
        GLYPH_FOUR@
    } else if c == '5' {
        GLYPH_FIVE@
    } else if c == '6' {
        GLYPH_SIX@
    } else if c == '7' {
        GLYPH_SEVEN@
    } else if c == '8' {
        GLYPH_EIGHT@
    } else if c == '9' {
        GLYPH_NINE@
    } else if c == ' ' {
        GLYPH_SPACE@
    } else if c == '.' {
        GLYPH_DECIMAL@
    } else if c == '-' {
        GLYPH_DASH@
    } else {
        GLYPH_E@
    }
}

/// Whether cell `(row, col)` of the glyph for `c` is inked, `row` counted from the top:
/// every other column of the double-width art is read, and a cell past the art is blank.
pub open spec fn glyph_cell(c: char, row: int, col: int) -> bool {
    let i = 1 + row * ART_ROW + 2 * col;
    i < glyph_art(c).len() && glyph_art(c)[i] != ' '
}

/// Rows of a rendered glyph: the cells scaled, with padding above and below.
pub open spec fn bitmap_height(style: TextStyle) -> int {
    CHAR_HEIGHT * style.scale + 2 * style.padding
}

/// Columns of a rendered glyph: the cells scaled, with padding on both sides.
pub open spec fn bitmap_width(style: TextStyle) -> int {
    CHAR_WIDTH * style.scale + 2 * style.padding
}

/// Pixel `(i, j)` of the rendered glyph for `c`, with row 0 at the bottom: each cell becomes
/// a `scale` by `scale` block, and `padding` blank pixels surround the whole.
pub open spec fn bitmap_cell(c: char, style: TextStyle, i: int, j: int) -> bool {
    let r = bitmap_height(style) - 1 - i;
    let p = style.padding as int;
    let s = style.scale as int;
    &&& p <= r < p + CHAR_HEIGHT * s
    &&& p <= j < p + CHAR_WIDTH * s
    &&& glyph_cell(c, (r - p) / s, (j - p) / s)
}

/// The style renders glyphs of a size that stays well inside every coordinate range.
pub open spec fn glyph_fits(style: TextStyle) -> bool {
    &&& style.scale >= 1
    &&& bitmap_height(style) <= 0x100_0000
    &&& bitmap_width(style) <= 0x100_0000
}

/// Whether `style` renders glyphs of a size that fits; see [`glyph_fits`].
pub fn style_fits(style: &TextStyle) -> (r: bool)
    ensures
        r == glyph_fits(*style),
{
    if style.scale < 1 || style.scale > 0x100_0000 || style.padding > 0x100_0000 {
        return false;
    }
    CHAR_HEIGHT * style.scale + 2 * style.padding <= 0x100_0000 && CHAR_WIDTH * style.scale + 2
        * style.padding <= 0x100_0000
}

fn art_of(c: char) -> (r: &'static str)
    requires
        has_glyph(c),
    ensures
        r@ == glyph_art(c),
{
    if c == '0' {
        GLYPH_ZERO
    } else if c == '1' {
        GLYPH_ONE
    } else if c == '2' {
        GLYPH_TWO
    } else if c == '3' {
        GLYPH_THREE
    } else if c == '4' {
        GLYPH_FOUR
    } else if c == '5' {
        GLYPH_FIVE
    } else if c == '6' {
        GLYPH_SIX
    } else if c == '7' {
        GLYPH_SEVEN
    } else if c == '8' {
        GLYPH_EIGHT
    } else if c == '9' {
        GLYPH_NINE
    } else if c == ' ' {
        GLYPH_SPACE
    } else if c == '.' {
        GLYPH_DECIMAL
    } else if c == '-' {
        GLYPH_DASH
    } else {
        GLYPH_E
    }
}

/// The rendered glyph for `c`, row 0 at the bottom; see [`bitmap_cell`].
pub fn get_bitmap(c: char, style: &TextStyle) -> (r: Vec<Vec<bool>>)
    requires
        has_glyph(c),
        glyph_fits(*style),
    ensures
        r@.len() == bitmap_height(*style),
        forall|i: int| 0 <= i < r@.len() ==> (#[trigger] r@[i])@.len() == bitmap_width(*style),
        forall|i: int, j: int|
            0 <= i < r@.len() && 0 <= j < bitmap_width(*style) ==> #[trigger] r@[i]@[j]
                == bitmap_cell(c, *style, i, j),
{
    let art = art_of(c);
    let n = art.unicode_len();
    let s = style.scale;
    let p = style.padding;
    let h = CHAR_HEIGHT * s + 2 * p;
    let w = CHAR_WIDTH * s + 2 * p;
    let mut rows: Vec<Vec<bool>> = Vec::new();
    let mut i: usize = 0;
    while i < h
        invariant
            has_glyph(c),
            glyph_fits(*style),
            art@ == glyph_art(c),
            n == art@.len(),
            s == style.scale,
            p == style.padding,
            h == bitmap_height(*style),
            w == bitmap_width(*style),
            i <= h,
            rows@.len() == i,
            forall|k: int| 0 <= k < i ==> (#[trigger] rows@[k])@.len() == w,
            forall|k: int, j: int|
                0 <= k < i && 0 <= j < w ==> #[trigger] rows@[k]@[j] == bitmap_cell(
                    c,
                    *style,
                    k,
                    j,
                ),
        decreases h - i,
    {
        let r = h - 1 - i;
        let mut row: Vec<bool> = Vec::new();
        let mut j: usize = 0;
        while j < w
            invariant
                has_glyph(c),
                glyph_fits(*style),
                art@ == glyph_art(c),
                n == art@.len(),
                s == style.scale,
                p == style.padding,
                h == bitmap_height(*style),
                w == bitmap_width(*style),
                i < h,
                r == h - 1 - i,
                j <= w,
                row@.len() == j,
                forall|jj: int| 0 <= jj < j ==> row@[jj] == bitmap_cell(c, *style, i as int, jj),
            decreases w - j,
        {
            let ink = if p <= r && r < p + CHAR_HEIGHT * s && p <= j && j < p + CHAR_WIDTH * s {
                let cr = (r - p) / s;
                let cc = (j - p) / s;
                proof {
                    assert(cr < CHAR_HEIGHT) by (nonlinear_arith)
                        requires
                            cr == (r - p) as int / s as int,
                            r - p < CHAR_HEIGHT * s,
                            s >= 1,
                    ;
                    assert(cc < CHAR_WIDTH) by (nonlinear_arith)
                        requires
                            cc == (j - p) as int / s as int,
                            j - p < CHAR_WIDTH * s,
                            s >= 1,
                    ;
                }
                let idx = 1 + cr * ART_ROW + 2 * cc;
                idx < n && art.get_char(idx) != ' '
            } else {
                false
            };
            row.push(ink);
            j = j + 1;
        }
        rows.push(row);
        i = i + 1;
    }
    rows
}

} // verus!
