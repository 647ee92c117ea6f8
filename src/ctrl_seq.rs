use crate::numfmt::digits_of;
use vstd::prelude::*;
use vstd::string::*;

verus! {

/// The `key=value` pairs that a graphics command carries.
pub trait CtrlSeq {
    spec fn ctrl_seq_spec(&self) -> Seq<char>;

    fn get_ctrl_seq(&self) -> (r: String)
        ensures
            r@ == self.ctrl_seq_spec(),
    ;
}

fn digit_str(d: u64) -> (r: &'static str)
    requires
        d < 10,
    ensures
        r@ == seq![crate::numfmt::digit_char(d as int)],
{
    proof {
        reveal_strlit("0");
        reveal_strlit("1");
        reveal_strlit("2");
        reveal_strlit("3");
        reveal_strlit("4");
        reveal_strlit("5");
        reveal_strlit("6");
        reveal_strlit("7");
        reveal_strlit("8");
        reveal_strlit("9");
    }
    if d == 0 {
        "0"
    } else if d == 1 {
        "1"
    } else if d == 2 {
        "2"
    } else if d == 3 {
        "3"
    } else if d == 4 {
        "4"
    } else if d == 5 {
        "5"
    } else if d == 6 {
        "6"
    } else if d == 7 {
        "7"
    } else if d == 8 {
        "8"
    } else {
        "9"
    }
}

/// Appends the decimal digits of `n`.
pub fn push_number(s: &mut String, n: u64)
    ensures
        final(s)@ == old(s)@ + digits_of(n as nat),
    decreases n,
{
    if n >= 10 {
        push_number(s, n / 10);
    }
    s.append(digit_str(n % 10));
    proof {
        if n < 10 {
            assert(n % 10 == n);
        }
    }
}

/// `key` followed by the decimal digits of `n`.
fn key_number(key: &str, n: u64) -> (r: String)
    ensures
        r@ == key@ + digits_of(n as nat),
{
    let mut s = String::from_str(key);
    push_number(&mut s, n);
    s
}

/// How the image data reaches the terminal.
#[derive(Debug, Clone, PartialEq, Eq)]
pub enum Transmission {
    /// The data itself, in the command.
    Direct(Vec<u8>),
    /// The path of a file that holds it.
    File(String),
    TempFile,
    SharedMemory,
}

impl CtrlSeq for Transmission {
    open spec fn ctrl_seq_spec(&self) -> Seq<char> {
        match self {
            Transmission::Direct(_) => "t=d"@,
            Transmission::File(_) => "t=f"@,
            Transmission::TempFile => "t=t"@,
            Transmission::SharedMemory => "t=s"@,
        }
    }

    fn get_ctrl_seq(&self) -> (r: String) {
        match self {
            Transmission::Direct(_) => String::from_str("t=d"),
            Transmission::File(_) => String::from_str("t=f"),
            Transmission::TempFile => String::from_str("t=t"),
            Transmission::SharedMemory => String::from_str("t=s"),
        }
    }
}

/// The format of the image data.
#[derive(Debug, Clone, Copy, PartialEq, Eq)]
pub enum PixelFormat {
    Png,
    /// A PNG shown over the given number of terminal cells.
    PngBounded { cols: u32, rows: u32 },
    /// Raw 24-bit pixels.
    Rgb { width: u32, height: u32 },
    /// Raw 32-bit pixels.
    Rgba { width: u32, height: u32 },
}

impl CtrlSeq for PixelFormat {
    open spec fn ctrl_seq_spec(&self) -> Seq<char> {
        match self {
            PixelFormat::Png => "f=100"@,
            PixelFormat::PngBounded { cols, rows } => "f=100,c="@ + digits_of(*cols as nat) + ",r="@
                + digits_of(*rows as nat),
            PixelFormat::Rgb { width, height } => "f=24,s="@ + digits_of(*width as nat) + ",v="@
                + digits_of(*height as nat),
            PixelFormat::Rgba { width, height } => "f=32,s="@ + digits_of(*width as nat) + ",v="@
                + digits_of(*height as nat),
        }
    }

    fn get_ctrl_seq(&self) -> (r: String) {
        match self {
            PixelFormat::Png => String::from_str("f=100"),
            PixelFormat::PngBounded { cols, rows } => {
                let mut s = key_number("f=100,c=", *cols as u64);
                s.append(",r=");
                push_number(&mut s, *rows as u64);
                s
            },
            PixelFormat::Rgb { width, height } => {
                let mut s = key_number("f=24,s=", *width as u64);
                s.append(",v=");
                push_number(&mut s, *height as u64);
                s
            },
            PixelFormat::Rgba { width, height } => {
                let mut s = key_number("f=32,s=", *width as u64);
                s.append(",v=");
                push_number(&mut s, *height as u64);
                s
            },
        }
    }
}

/// What the terminal is asked to do.
#[derive(Debug, Clone, Copy, PartialEq, Eq)]
pub enum Action {
    TransmitDisplay,
    Query,
}

impl CtrlSeq for Action {
    open spec fn ctrl_seq_spec(&self) -> Seq<char> {
        match self {
            Action::TransmitDisplay => "a=T"@,
            Action::Query => "a=q"@,
        }
    }

    fn get_ctrl_seq(&self) -> (r: String) {
        match self {
            Action::TransmitDisplay => String::from_str("a=T"),
            Action::Query => String::from_str("a=q"),
        }
    }
}

/// Further keys of a command.
#[derive(Debug, Clone, Copy, PartialEq, Eq)]
pub enum Metadata {
    Id(u32),
    /// Whether more chunks of data follow.
    MoreData(bool),
    StackingOrder(u16),
}

impl CtrlSeq for Metadata {
    open spec fn ctrl_seq_spec(&self) -> Seq<char> {
        match self {
            Metadata::Id(id) => "i="@ + digits_of(*id as nat),
            Metadata::MoreData(more) => if *more {
                "m=1"@
            } else {
                "m=0"@
            },
            Metadata::StackingOrder(z) => "z="@ + digits_of(*z as nat),
        }
    }

    fn get_ctrl_seq(&self) -> (r: String) {
        match self {
            Metadata::Id(id) => key_number("i=", *id as u64),
            Metadata::MoreData(more) => if *more {
                String::from_str("m=1")
            } else {
                String::from_str("m=0")
            },
            Metadata::StackingOrder(z) => key_number("z=", *z as u64),
        }
    }
}

/// Where, within its cell, the image starts.
#[derive(Debug, Clone, Copy, PartialEq, Eq)]
pub enum Positioning {
    Current,
    WithCellOffset { offset_x: u32, offset_y: u32 },
}

impl CtrlSeq for Positioning {
    open spec fn ctrl_seq_spec(&self) -> Seq<char> {
        match self {
            Positioning::Current => ""@,
            Positioning::WithCellOffset { offset_x, offset_y } => "X="@ + digits_of(
                *offset_x as nat,
            ) + ",Y="@ + digits_of(*offset_y as nat),
        }
    }

    fn get_ctrl_seq(&self) -> (r: String) {
        match self {
            Positioning::Current => String::from_str(""),
            Positioning::WithCellOffset { offset_x, offset_y } => {
                let mut s = key_number("X=", *offset_x as u64);
                s.append(",Y=");
                push_number(&mut s, *offset_y as u64);
                s
            },
        }
    }
}

/// The part of the image shown, or the cells it is shown over.
#[derive(Debug, Clone, Copy, PartialEq, Eq)]
pub enum DisplayRegion {
    Rectangle { x: u16, y: u16, width: u16, height: u16 },
    Rows(u16),
    Cols(u16),
    RowsCols { rows: u16, cols: u16 },
}

impl CtrlSeq for DisplayRegion {
    open spec fn ctrl_seq_spec(&self) -> Seq<char> {
        match self {
            DisplayRegion::Rectangle { x, y, width, height } => "x="@ + digits_of(*x as nat)
                + ",y="@ + digits_of(*y as nat) + ",w="@ + digits_of(*width as nat) + ",h="@
                + digits_of(*height as nat),
            DisplayRegion::Rows(rows) => "r="@ + digits_of(*rows as nat),
            DisplayRegion::Cols(cols) => "c="@ + digits_of(*cols as nat),
            DisplayRegion::RowsCols { rows, cols } => "r="@ + digits_of(*rows as nat) + ",c="@
                + digits_of(*cols as nat),
        }
    }

    fn get_ctrl_seq(&self) -> (r: String) {
        match self {
            DisplayRegion::Rectangle { x, y, width, height } => {
                let mut s = key_number("x=", *x as u64);
                s.append(",y=");
                push_number(&mut s, *y as u64);
                s.append(",w=");
                push_number(&mut s, *width as u64);
                s.append(",h=");
                push_number(&mut s, *height as u64);
                s
            },
            DisplayRegion::Rows(rows) => key_number("r=", *rows as u64),
            DisplayRegion::Cols(cols) => key_number("c=", *cols as u64),
            DisplayRegion::RowsCols { rows, cols } => {
                let mut s = key_number("r=", *rows as u64);
                s.append(",c=");
                push_number(&mut s, *cols as u64);
                s
            },
        }
    }
}

} // verus!
