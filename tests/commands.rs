use termplt::commands::{clear_screen, parse_cursor_pos, set_cursor_pos, CsiCommand, KittyCommand, TermPosition};
use termplt::ctrl_seq::{Action, CtrlSeq, DisplayRegion, Metadata, PixelFormat, Positioning, Transmission};
use termplt::image::{Image, ImageError, PositioningType};
use termplt::window::WindowSize;

#[test]
fn control_sequences() {
    assert_eq!(Action::TransmitDisplay.get_ctrl_seq(), "a=T");
    assert_eq!(Action::Query.get_ctrl_seq(), "a=q");
    assert_eq!(PixelFormat::Rgb { width: 200, height: 30 }.get_ctrl_seq(), "f=24,s=200,v=30");
    assert_eq!(PixelFormat::PngBounded { cols: 4, rows: 7 }.get_ctrl_seq(), "f=100,c=4,r=7");
    assert_eq!(Metadata::MoreData(false).get_ctrl_seq(), "m=0");
    assert_eq!(Metadata::Id(1234567).get_ctrl_seq(), "i=1234567");
    assert_eq!(Transmission::Direct(vec![1]).get_ctrl_seq(), "t=d");
    assert_eq!(Positioning::WithCellOffset { offset_x: 3, offset_y: 0 }.get_ctrl_seq(), "X=3,Y=0");
    assert_eq!(
        DisplayRegion::Rectangle { x: 1, y: 2, width: 30, height: 40 }.get_ctrl_seq(),
        "x=1,y=2,w=30,h=40"
    );
}

#[test]
fn kitty_command_frames_chunks() {
    let cmd = KittyCommand::new(b"Man", &["a=T".to_string(), "f=24".to_string()]);
    assert_eq!(cmd.cmd, b"\x1b_Ga=T,f=24,m=0;TWFu\x1b\\".to_vec());
    let big = vec![0u8; 3 * 1366];
    let cmd = KittyCommand::new(&big, &["a=T".to_string()]);
    let text = String::from_utf8(cmd.cmd).unwrap();
    assert!(text.starts_with("\x1b_Ga=T,m=1;AAAA"));
    assert!(text.contains("\x1b\\\x1b_Gm=0;AAAA"));
    assert_eq!(text.matches("\x1b_G").count(), 2);
}

#[test]
fn csi_commands() {
    assert_eq!(CsiCommand::new("6n", "R").cmd, b"\x1b[6n".to_vec());
    assert_eq!(set_cursor_pos(12, 3).cmd, b"\x1b[12;3H".to_vec());
    assert_eq!(clear_screen().cmd, b"\x1b[2J".to_vec());
    assert_eq!(parse_cursor_pos(b"24;80"), Some(TermPosition { row: 24, col: 80 }));
    assert_eq!(parse_cursor_pos(b"24"), None);
    assert_eq!(parse_cursor_pos(b"2x;8"), None);
    assert_eq!(parse_cursor_pos(b"99999999999;1"), None);
}

#[test]
fn window_size_and_image_position() {
    let w = WindowSize::build_from_ioctl([40, 100, 1000, 800]);
    assert_eq!(w.pix_per_col, 10);
    assert_eq!(w.pix_per_row, 20);
    let img = Image::new(PixelFormat::Rgb { width: 2, height: 2 }, Transmission::Direct(vec![0; 12]), 2, 2);
    let d = img.get_positioning_details(35, 45, &w).unwrap();
    assert_eq!((d.row, d.col, d.offset_x, d.offset_y), (3, 4, 5, 5));
    assert_eq!(
        img.get_positioning_details(1001, 0, &w).unwrap_err(),
        ImageError::PositioningOutsideTerminalWindow
    );
    let (cell, _) = img.display_at_position(PositioningType::Centered, &w);
    assert_eq!(cell, TermPosition { row: 20, col: 50 });
    assert_eq!(Image::pixel_size(&PixelFormat::PngBounded { cols: 3, rows: 2 }, &w), Some((30, 40)));
    let cmd = img.display();
    assert!(String::from_utf8(cmd.cmd).unwrap().starts_with("\x1b_Ga=T,f=24,s=2,v=2,t=d,m=0;"));
}

#[test]
fn commands_carry_utf8() {
    assert_eq!(CsiCommand::new("é", "").cmd, vec![0x1b, b'[', 0xc3, 0xa9]);
    let cmd = KittyCommand::new(b"M", &["é".to_string()]);
    assert_eq!(cmd.cmd, b"\x1b_G\xc3\xa9,m=0;TQ\x1b\\".to_vec());
}
