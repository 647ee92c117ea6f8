use vstd::prelude::*;

verus! {

/// The window size query ended with a non-zero code.
#[derive(Debug, Clone, Copy, PartialEq, Eq)]
pub struct WindowCtrlError {
    pub exit_code: i32,
}

/// The terminal window: its cells, its pixels, and the pixels of one cell.
#[derive(Debug, Clone, Copy, PartialEq, Eq)]
pub struct WindowSize {
    pub rows: u32,
    pub cols: u32,
    pub x_pix: u32,
    pub y_pix: u32,
    pub pix_per_row: u32,
    pub pix_per_col: u32,
}

impl WindowSize {
    /// The size from the four numbers that the terminal reports: rows, columns, width and
    /// height in pixels. The rows and columns must not be zero.
    pub fn build_from_ioctl(ioctl_data: [u16; 4]) -> (r: WindowSize)
        requires
            ioctl_data@[0] > 0,
            ioctl_data@[1] > 0,
        ensures
            r.rows == ioctl_data@[0],
            r.cols == ioctl_data@[1],
            r.x_pix == ioctl_data@[2],
            r.y_pix == ioctl_data@[3],
            r.pix_per_col == ioctl_data@[2] / ioctl_data@[1],
            r.pix_per_row == ioctl_data@[3] / ioctl_data@[0],
    {
        let rows = ioctl_data[0] as u32;
        let cols = ioctl_data[1] as u32;
        let x_pix = ioctl_data[2] as u32;
        let y_pix = ioctl_data[3] as u32;
        WindowSize {
            rows,
            cols,
            x_pix,
            y_pix,
            pix_per_col: x_pix / cols,
            pix_per_row: y_pix / rows,
        }
    }
}

} // verus!
