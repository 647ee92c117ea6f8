use crate::commands::{attr_bytes, char_bytes, chunk_count, kitty_frames, KittyCommand, TermPosition};
use crate::encoding::b64_encode;
use crate::ctrl_seq::{Action, CtrlSeq, PixelFormat, Positioning, Transmission};
use crate::window::WindowSize;
use vstd::prelude::*;

verus! {

/// Why an image cannot be shown as asked.
#[derive(Debug, Clone, Copy, PartialEq, Eq)]
pub enum ImageError {
    PositioningOutsideTerminalWindow,
    DisplayRegionExceedsImageBounds,
    KittyFormatUnsupported,
}

/// Where an image is shown.
#[derive(Debug, Clone, Copy, PartialEq, Eq)]
pub enum PositioningType {
    /// At a pixel of the window, from its top-left corner.
    ExactPixel { x: u32, y: u32 },
    /// In the middle of the window.
    Centered,
}

/// A pixel of the window as a cell (both counted from one) and an offset inside it.
#[derive(Debug, Clone, Copy, PartialEq, Eq)]
pub struct PositionDetails {
    pub row: u32,
    pub col: u32,
    pub offset_x: u32,
    pub offset_y: u32,
}

/// An image to show in the terminal, with its size in pixels.
#[derive(Debug, Clone)]
pub struct Image {
    pub format: PixelFormat,
    pub transmission: Transmission,
    pub width_pix: u32,
    pub height_pix: u32,
}

/// The window's cells have a size in pixels.
pub open spec fn cells_sized(w: WindowSize) -> bool {
    w.pix_per_row > 0 && w.pix_per_col > 0
}

fn clone_bytes(v: &Vec<u8>) -> (r: Vec<u8>)
    ensures
        r@ == v@,
{
    let mut r: Vec<u8> = Vec::new();
    let mut i: usize = 0;
    while i < v.len()
        invariant
            i <= v@.len(),
            r@ == v@.subrange(0, i as int),
        decreases v@.len() - i,
    {
        r.push(v[i]);
        proof {
            assert(v@.subrange(0, i + 1) == v@.subrange(0, i as int).push(v@[i as int]));
        }
        i = i + 1;
    }
    proof {
        assert(v@.subrange(0, v@.len() as int) == v@);
    }
    r
}

impl Image {
    pub fn new(format: PixelFormat, transmission: Transmission, width_pix: u32, height_pix: u32) -> (r: Image)
        ensures
            r.format == format,
            r.transmission == transmission,
            r.width_pix == width_pix,
            r.height_pix == height_pix,
    {
        Image { format, transmission, width_pix, height_pix }
    }

    /// The size in pixels that a format gives: raw pixels carry theirs, a bounded PNG covers
    /// its cells. A plain PNG's size is in its data; `None`. Also `None` when the size does
    /// not fit in `u32`.
    pub fn pixel_size(format: &PixelFormat, window: &WindowSize) -> (r: Option<(u32, u32)>)
        ensures
            match *format {
                PixelFormat::Png => r is None,
                PixelFormat::PngBounded { cols, rows } => if cols * window.pix_per_col <= u32::MAX
                    && rows * window.pix_per_row <= u32::MAX {
                    r == Some(
                        ((cols * window.pix_per_col) as u32, (rows * window.pix_per_row) as u32),
                    )
                } else {
                    r is None
                },
                PixelFormat::Rgb { width, height } => r == Some((width, height)),
                PixelFormat::Rgba { width, height } => r == Some((width, height)),
            },
    {
        match *format {
            PixelFormat::Png => None,
            PixelFormat::PngBounded { cols, rows } => {
                proof {
                    assert(cols * window.pix_per_col <= u32::MAX * u32::MAX) by (nonlinear_arith)
                        requires
                            cols <= u32::MAX,
                            window.pix_per_col <= u32::MAX,
                    ;
                    assert(rows * window.pix_per_row <= u32::MAX * u32::MAX) by (nonlinear_arith)
                        requires
                            rows <= u32::MAX,
                            window.pix_per_row <= u32::MAX,
                    ;
                }
                let w = cols as u64 * window.pix_per_col as u64;
                let h = rows as u64 * window.pix_per_row as u64;
                if w <= u32::MAX as u64 && h <= u32::MAX as u64 {
                    Some((w as u32, h as u32))
                } else {
                    None
                }
            },
            PixelFormat::Rgb { width, height } => Some((width, height)),
            PixelFormat::Rgba { width, height } => Some((width, height)),
        }
    }

    /// The keys of a plain display: transmit and display, the format, the transmission.
    pub fn display_attributes(&self) -> (r: Vec<String>)
        ensures
            r@.len() == 3,
            r@[0]@ == Action::TransmitDisplay.ctrl_seq_spec(),
            r@[1]@ == self.format.ctrl_seq_spec(),
            r@[2]@ == self.transmission.ctrl_seq_spec(),
    {
        let mut attrs: Vec<String> = Vec::new();
        attrs.push(Action::TransmitDisplay.get_ctrl_seq());
        attrs.push(self.format.get_ctrl_seq());
        attrs.push(self.transmission.get_ctrl_seq());
        attrs
    }

    /// The payload a command carries: the data itself, or the path of its file.
    fn payload(&self) -> (r: Vec<u8>)
        requires
            self.transmission is Direct || self.transmission is File,
        ensures
            self.transmission is Direct ==> r@ == self.transmission->Direct_0@,
            self.transmission is File ==> r@ == crate::commands::char_bytes(
                self.transmission->File_0@,
            ),
    {
        match &self.transmission {
            Transmission::Direct(bytes) => clone_bytes(bytes),
            Transmission::File(path) => crate::commands::string_bytes(path),
            _ => Vec::new(),
        }
    }

    /// The bytes a command carries: the data itself, or the path of its file.
    pub open spec fn payload_spec(&self) -> Seq<u8> {
        match self.transmission {
            Transmission::File(path) => char_bytes(path@),
            Transmission::Direct(bytes) => bytes@,
            _ => Seq::empty(),
        }
    }

    /// The command that shows the image where the cursor is: the payload with the keys of
    /// [`Image::display_attributes`]. The data must be sent directly or as a file.
    pub fn display(&self) -> (r: KittyCommand)
        requires
            self.transmission is Direct || self.transmission is File,
        ensures
            r.cmd@ == kitty_frames(
                b64_encode(self.payload_spec()),
                seq![
                    char_bytes(Action::TransmitDisplay.ctrl_seq_spec()),
                    char_bytes(self.format.ctrl_seq_spec()),
                    char_bytes(self.transmission.ctrl_seq_spec()),
                ],
                chunk_count(b64_encode(self.payload_spec()).len() as int),
            ),
    {
        let attrs = self.display_attributes();
        let payload = self.payload();
        proof {
            assert(attr_bytes(attrs@) =~= seq![
                char_bytes(Action::TransmitDisplay.ctrl_seq_spec()),
                char_bytes(self.format.ctrl_seq_spec()),
                char_bytes(self.transmission.ctrl_seq_spec()),
            ]);
        }
        KittyCommand::new(payload.as_slice(), attrs.as_slice())
    }

    /// The cell and the offset within it of the window pixel `(x_pix, y_pix)`; an error when
    /// the pixel lies outside the window.
    pub fn get_positioning_details(&self, x_pix: u32, y_pix: u32, window: &WindowSize) -> (r: Result<
        PositionDetails,
        ImageError,
    >)
        requires
            cells_sized(*window),
            window.x_pix < u32::MAX,
            window.y_pix < u32::MAX,
        ensures
            (x_pix > window.x_pix || y_pix > window.y_pix) ==> r == Err::<
                PositionDetails,
                ImageError,
            >(ImageError::PositioningOutsideTerminalWindow),
            !(x_pix > window.x_pix || y_pix > window.y_pix) ==> r == Ok::<
                PositionDetails,
                ImageError,
            >(
                PositionDetails {
                    row: (y_pix / window.pix_per_row + 1) as u32,
                    col: (x_pix / window.pix_per_col + 1) as u32,
                    offset_x: (x_pix % window.pix_per_col) as u32,
                    offset_y: (y_pix % window.pix_per_row) as u32,
                },
            ),
    {
        if x_pix > window.x_pix || y_pix > window.y_pix {
            Err(ImageError::PositioningOutsideTerminalWindow)
        } else {
            Ok(
                PositionDetails {
                    row: y_pix / window.pix_per_row + 1,
                    col: x_pix / window.pix_per_col + 1,
                    offset_x: x_pix % window.pix_per_col,
                    offset_y: y_pix % window.pix_per_row,
                },
            )
        }
    }

    /// The top-left pixel at which the image stands: the pixel given, or the one that centres
    /// the image in the window (zero where the image is larger than the window).
    pub open spec fn anchor(&self, positioning: PositioningType, window: WindowSize) -> (u32, u32) {
        match positioning {
            PositioningType::ExactPixel { x, y } => (x, y),
            PositioningType::Centered => (
                if window.x_pix / 2 >= self.width_pix / 2 {
                    (window.x_pix / 2 - self.width_pix / 2) as u32
                } else {
                    0
                },
                if window.y_pix / 2 >= self.height_pix / 2 {
                    (window.y_pix / 2 - self.height_pix / 2) as u32
                } else {
                    0
                },
            ),
        }
    }

    /// Showing the image at a place: the cell to move the cursor to first, and the command to
    /// write there, which carries the offset within the cell. The cursor goes back afterwards.
    pub fn display_at_position(&self, positioning: PositioningType, window: &WindowSize) -> (r: (
        TermPosition,
        KittyCommand,
    ))
        requires
            cells_sized(*window),
            self.transmission is Direct || self.transmission is File,
            positioning matches PositioningType::ExactPixel { x, y } ==> x < u32::MAX && y
                < u32::MAX,
        ensures
            ({
                let (x, y) = self.anchor(positioning, *window);
                let offset = Positioning::WithCellOffset {
                    offset_x: (x % window.pix_per_col) as u32,
                    offset_y: (y % window.pix_per_row) as u32,
                };
                &&& r.0.row == y / window.pix_per_row + 1
                &&& r.0.col == x / window.pix_per_col + 1
                &&& r.1.cmd@ == kitty_frames(
                    b64_encode(self.payload_spec()),
                    seq![
                        char_bytes(self.format.ctrl_seq_spec()),
                        char_bytes(self.transmission.ctrl_seq_spec()),
                        char_bytes(offset.ctrl_seq_spec()),
                        char_bytes(Action::TransmitDisplay.ctrl_seq_spec()),
                    ],
                    chunk_count(b64_encode(self.payload_spec()).len() as int),
                )
            }),
    {
        let (x, y) = match positioning {
            PositioningType::ExactPixel { x, y } => (x, y),
            PositioningType::Centered => (
                if window.x_pix / 2 >= self.width_pix / 2 {
                    window.x_pix / 2 - self.width_pix / 2
                } else {
                    0
                },
                if window.y_pix / 2 >= self.height_pix / 2 {
                    window.y_pix / 2 - self.height_pix / 2
                } else {
                    0
                },
            ),
        };
        let row = y / window.pix_per_row + 1;
        let col = x / window.pix_per_col + 1;
        let offset_x = x % window.pix_per_col;
        let offset_y = y % window.pix_per_row;
        let mut attrs: Vec<String> = Vec::new();
        attrs.push(self.format.get_ctrl_seq());
        attrs.push(self.transmission.get_ctrl_seq());
        attrs.push(Positioning::WithCellOffset { offset_x, offset_y }.get_ctrl_seq());
        attrs.push(Action::TransmitDisplay.get_ctrl_seq());
        let payload = self.payload();
        proof {
            assert(attr_bytes(attrs@) =~= seq![
                char_bytes(self.format.ctrl_seq_spec()),
                char_bytes(self.transmission.ctrl_seq_spec()),
                char_bytes(Positioning::WithCellOffset { offset_x, offset_y }.ctrl_seq_spec()),
                char_bytes(Action::TransmitDisplay.ctrl_seq_spec()),
            ]);
        }
        (TermPosition { row, col }, KittyCommand::new(payload.as_slice(), attrs.as_slice()))
    }
}

} // verus!
