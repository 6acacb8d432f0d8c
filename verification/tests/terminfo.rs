use ncurses_native::color::Palette;
use ncurses_native::infocmp::terminfo_source;
use ncurses_native::termcap::to_termcap;
use ncurses_native::input::{keyname, KeyMap};
use ncurses_native::terminfo::db::search_dirs_from;
use ncurses_native::terminfo::{putp, tgoto, tparm, tparm_n, tputs, Param, ParseError, Terminfo, Tigetstr};
use ncurses_native::update::Screen;
use ncurses_native::window::Cell;

const XTERM: &[u8] = &[
    0x1a, 0x01, 0x3d, 0x00, 0x26, 0x00, 0x0f, 0x00, 0x9d, 0x01, 0x10, 0x06, 0x78, 0x74, 0x65, 0x72,
    0x6d, 0x7c, 0x78, 0x74, 0x65, 0x72, 0x6d, 0x2d, 0x64, 0x65, 0x62, 0x69, 0x61, 0x6e, 0x7c, 0x78,
    0x74, 0x65, 0x72, 0x6d, 0x20, 0x74, 0x65, 0x72, 0x6d, 0x69, 0x6e, 0x61, 0x6c, 0x20, 0x65, 0x6d,
    0x75, 0x6c, 0x61, 0x74, 0x6f, 0x72, 0x20, 0x28, 0x58, 0x20, 0x57, 0x69, 0x6e, 0x64, 0x6f, 0x77,
    0x20, 0x53, 0x79, 0x73, 0x74, 0x65, 0x6d, 0x29, 0x00, 0x00, 0x01, 0x00, 0x00, 0x01, 0x00, 0x00,
    0x00, 0x01, 0x00, 0x00, 0x00, 0x00, 0x01, 0x01, 0x00, 0x00, 0x00, 0x00, 0x00, 0x00, 0x00, 0x01,
    0x00, 0x00, 0x01, 0x00, 0x00, 0x01, 0x00, 0x00, 0x00, 0x00, 0x00, 0x00, 0x00, 0x00, 0x01, 0x00,
    0x50, 0x00, 0x08, 0x00, 0x18, 0x00, 0xff, 0xff, 0xff, 0xff, 0xff, 0xff, 0xff, 0xff, 0xff, 0xff,
    0xff, 0xff, 0xff, 0xff, 0xff, 0xff, 0xff, 0xff, 0xff, 0xff, 0x08, 0x00, 0x40, 0x00, 0x00, 0x00,
    0x04, 0x00, 0x06, 0x00, 0x08, 0x00, 0x19, 0x00, 0x1e, 0x00, 0x26, 0x00, 0x2a, 0x00, 0x2e, 0x00,
    0xff, 0xff, 0x39, 0x00, 0x4a, 0x00, 0x4c, 0x00, 0x50, 0x00, 0x57, 0x00, 0xff, 0xff, 0x59, 0x00,
    0x66, 0x00, 0xff, 0xff, 0x6a, 0x00, 0x6e, 0x00, 0x78, 0x00, 0x7c, 0x00, 0xff, 0xff, 0xff, 0xff,
    0x80, 0x00, 0x84, 0x00, 0x89, 0x00, 0x8e, 0x00, 0xff, 0xff, 0xa0, 0x00, 0xa5, 0x00, 0xaa, 0x00,
    0xff, 0xff, 0xaf, 0x00, 0xb4, 0x00, 0xb9, 0x00, 0xbe, 0x00, 0xc7, 0x00, 0xcb, 0x00, 0xd2, 0x00,
    0xff, 0xff, 0xe4, 0x00, 0xe9, 0x00, 0xef, 0x00, 0xf5, 0x00, 0xff, 0xff, 0xff, 0xff, 0xff, 0xff,
    0x07, 0x01, 0xff, 0xff, 0xff, 0xff, 0xff, 0xff, 0x19, 0x01, 0xff, 0xff, 0x1d, 0x01, 0xff, 0xff,
    0xff, 0xff, 0xff, 0xff, 0x1f, 0x01, 0xff, 0xff, 0x24, 0x01, 0xff, 0xff, 0xff, 0xff, 0xff, 0xff,
    0xff, 0xff, 0x28, 0x01, 0x2c, 0x01, 0x32, 0x01, 0x36, 0x01, 0x3a, 0x01, 0x3e, 0x01, 0x44, 0x01,
    0x4a, 0x01, 0x50, 0x01, 0x56, 0x01, 0x5c, 0x01, 0x60, 0x01, 0xff, 0xff, 0x65, 0x01, 0xff, 0xff,
    0x69, 0x01, 0x6e, 0x01, 0x73, 0x01, 0x77, 0x01, 0x7e, 0x01, 0xff, 0xff, 0x85, 0x01, 0x89, 0x01,
    0x91, 0x01, 0xff, 0xff, 0xff, 0xff, 0xff, 0xff, 0xff, 0xff, 0xff, 0xff, 0xff, 0xff, 0xff, 0xff,
    0xff, 0xff, 0xff, 0xff, 0xff, 0xff, 0xff, 0xff, 0x99, 0x01, 0xa2, 0x01, 0xab, 0x01, 0xff, 0xff,
    0xae, 0x01, 0xb7, 0x01, 0xc0, 0x01, 0xc9, 0x01, 0xd2, 0x01, 0xdb, 0x01, 0xe4, 0x01, 0xed, 0x01,
    0xf6, 0x01, 0xff, 0x01, 0xff, 0xff, 0xff, 0xff, 0xff, 0xff, 0x08, 0x02, 0x0c, 0x02, 0x11, 0x02,
    0x16, 0x02, 0x2a, 0x02, 0x2d, 0x02, 0xff, 0xff, 0xff, 0xff, 0x3f, 0x02, 0x42, 0x02, 0x4d, 0x02,
    0x50, 0x02, 0x52, 0x02, 0x55, 0x02, 0xb2, 0x02, 0xff, 0xff, 0xb5, 0x02, 0xff, 0xff, 0xff, 0xff,
    0xff, 0xff, 0xff, 0xff, 0xb7, 0x02, 0xbb, 0x02, 0xbf, 0x02, 0xc3, 0x02, 0xc7, 0x02, 0xff, 0xff,
    0xff, 0xff, 0xcb, 0x02, 0xff, 0xff, 0x00, 0x03, 0xff, 0xff, 0xff, 0xff, 0x04, 0x03, 0x0a, 0x03,
    0xff, 0xff, 0xff, 0xff, 0xff, 0xff, 0xff, 0xff, 0xff, 0xff, 0x10, 0x03, 0xff, 0xff, 0xff, 0xff,
    0xff, 0xff, 0xff, 0xff, 0xff, 0xff, 0x14, 0x03, 0x18, 0x03, 0xff, 0xff, 0xff, 0xff, 0xff, 0xff,
    0xff, 0xff, 0xff, 0xff, 0xff, 0xff, 0xff, 0xff, 0xff, 0xff, 0xff, 0xff, 0xff, 0xff, 0xff, 0xff,
    0xff, 0xff, 0xff, 0xff, 0xff, 0xff, 0xff, 0xff, 0xff, 0xff, 0xff, 0xff, 0xff, 0xff, 0xff, 0xff,
    0xff, 0xff, 0xff, 0xff, 0xff, 0xff, 0xff, 0xff, 0xff, 0xff, 0xff, 0xff, 0x1c, 0x03, 0xff, 0xff,
    0xff, 0xff, 0x23, 0x03, 0xff, 0xff, 0xff, 0xff, 0xff, 0xff, 0xff, 0xff, 0x2a, 0x03, 0x31, 0x03,
    0x38, 0x03, 0xff, 0xff, 0xff, 0xff, 0x3f, 0x03, 0xff, 0xff, 0x46, 0x03, 0xff, 0xff, 0xff, 0xff,
    0xff, 0xff, 0x4d, 0x03, 0xff, 0xff, 0xff, 0xff, 0xff, 0xff, 0xff, 0xff, 0xff, 0xff, 0x54, 0x03,
    0x5a, 0x03, 0x60, 0x03, 0x67, 0x03, 0x6e, 0x03, 0x75, 0x03, 0x7c, 0x03, 0x84, 0x03, 0x8c, 0x03,
    0x94, 0x03, 0x9c, 0x03, 0xa4, 0x03, 0xac, 0x03, 0xb4, 0x03, 0xbc, 0x03, 0xc3, 0x03, 0xca, 0x03,
    0xd1, 0x03, 0xd8, 0x03, 0xe0, 0x03, 0xe8, 0x03, 0xf0, 0x03, 0xf8, 0x03, 0x00, 0x04, 0x08, 0x04,
    0x10, 0x04, 0x18, 0x04, 0x1f, 0x04, 0x26, 0x04, 0x2d, 0x04, 0x34, 0x04, 0x3c, 0x04, 0x44, 0x04,
    0x4c, 0x04, 0x54, 0x04, 0x5c, 0x04, 0x64, 0x04, 0x6c, 0x04, 0x74, 0x04, 0x7b, 0x04, 0x82, 0x04,
    0x89, 0x04, 0x90, 0x04, 0x98, 0x04, 0xa0, 0x04, 0xa8, 0x04, 0xb0, 0x04, 0xb8, 0x04, 0xc0, 0x04,
    0xc8, 0x04, 0xd0, 0x04, 0xd7, 0x04, 0xde, 0x04, 0xe5, 0x04, 0xea, 0x04, 0xff, 0xff, 0xff, 0xff,
    0xff, 0xff, 0xff, 0xff, 0xff, 0xff, 0xff, 0xff, 0xff, 0xff, 0xff, 0xff, 0xff, 0xff, 0xff, 0xff,
    0xff, 0xff, 0xff, 0xff, 0xff, 0xff, 0xff, 0xff, 0xff, 0xff, 0xff, 0xff, 0xff, 0xff, 0xff, 0xff,
    0xff, 0xff, 0xff, 0xff, 0xff, 0xff, 0xff, 0xff, 0xf1, 0x04, 0xfc, 0x04, 0x01, 0x05, 0x14, 0x05,
    0x18, 0x05, 0xff, 0xff, 0xff, 0xff, 0xff, 0xff, 0xff, 0xff, 0x21, 0x05, 0x67, 0x05, 0xff, 0xff,
    0xff, 0xff, 0xff, 0xff, 0xff, 0xff, 0xff, 0xff, 0xff, 0xff, 0xff, 0xff, 0xad, 0x05, 0xff, 0xff,
    0xff, 0xff, 0xff, 0xff, 0xff, 0xff, 0xff, 0xff, 0xff, 0xff, 0xff, 0xff, 0xff, 0xff, 0xff, 0xff,
    0xb2, 0x05, 0xff, 0xff, 0xff, 0xff, 0xff, 0xff, 0xff, 0xff, 0xff, 0xff, 0xff, 0xff, 0xff, 0xff,
    0xff, 0xff, 0xff, 0xff, 0xff, 0xff, 0xff, 0xff, 0xff, 0xff, 0xff, 0xff, 0xff, 0xff, 0xff, 0xff,
    0xff, 0xff, 0xff, 0xff, 0xff, 0xff, 0xff, 0xff, 0xff, 0xff, 0xb8, 0x05, 0xc9, 0x05, 0xff, 0xff,
    0xff, 0xff, 0xff, 0xff, 0xff, 0xff, 0xff, 0xff, 0xff, 0xff, 0xff, 0xff, 0xff, 0xff, 0xff, 0xff,
    0xff, 0xff, 0xff, 0xff, 0xdb, 0x05, 0xff, 0xff, 0xff, 0xff, 0xff, 0xff, 0xdf, 0x05, 0xe9, 0x05,
    0xff, 0xff, 0xff, 0xff, 0xff, 0xff, 0xff, 0xff, 0xff, 0xff, 0xff, 0xff, 0xff, 0xff, 0xf3, 0x05,
    0xff, 0xff, 0xff, 0xff, 0xff, 0xff, 0xff, 0xff, 0xff, 0xff, 0xff, 0xff, 0xff, 0xff, 0xff, 0xff,
    0xff, 0xff, 0xff, 0xff, 0xff, 0xff, 0xff, 0xff, 0xff, 0xff, 0xff, 0xff, 0xff, 0xff, 0xff, 0xff,
    0xff, 0xff, 0xff, 0xff, 0xff, 0xff, 0xff, 0xff, 0xff, 0xff, 0xff, 0xff, 0xff, 0xff, 0xff, 0xff,
    0xff, 0xff, 0xff, 0xff, 0xff, 0xff, 0xff, 0xff, 0xff, 0xff, 0xff, 0xff, 0xff, 0xff, 0xff, 0xff,
    0xff, 0xff, 0xff, 0xff, 0xff, 0xff, 0xff, 0xff, 0xff, 0xff, 0xff, 0xff, 0xff, 0xff, 0xff, 0xff,
    0xff, 0xff, 0xff, 0xff, 0x0a, 0x06, 0x0d, 0x06, 0x1b, 0x5b, 0x5a, 0x00, 0x07, 0x00, 0x0d, 0x00,
    0x1b, 0x5b, 0x25, 0x69, 0x25, 0x70, 0x31, 0x25, 0x64, 0x3b, 0x25, 0x70, 0x32, 0x25, 0x64, 0x72,
    0x00, 0x1b, 0x5b, 0x33, 0x67, 0x00, 0x1b, 0x5b, 0x48, 0x1b, 0x5b, 0x32, 0x4a, 0x00, 0x1b, 0x5b,
    0x4b, 0x00, 0x1b, 0x5b, 0x4a, 0x00, 0x1b, 0x5b, 0x25, 0x69, 0x25, 0x70, 0x31, 0x25, 0x64, 0x47,
    0x00, 0x1b, 0x5b, 0x25, 0x69, 0x25, 0x70, 0x31, 0x25, 0x64, 0x3b, 0x25, 0x70, 0x32, 0x25, 0x64,
    0x48, 0x00, 0x0a, 0x00, 0x1b, 0x5b, 0x48, 0x00, 0x1b, 0x5b, 0x3f, 0x32, 0x35, 0x6c, 0x00, 0x08,
    0x00, 0x1b, 0x5b, 0x3f, 0x31, 0x32, 0x6c, 0x1b, 0x5b, 0x3f, 0x32, 0x35, 0x68, 0x00, 0x1b, 0x5b,
    0x43, 0x00, 0x1b, 0x5b, 0x41, 0x00, 0x1b, 0x5b, 0x3f, 0x31, 0x32, 0x3b, 0x32, 0x35, 0x68, 0x00,
    0x1b, 0x5b, 0x50, 0x00, 0x1b, 0x5b, 0x4d, 0x00, 0x1b, 0x28, 0x30, 0x00, 0x1b, 0x5b, 0x35, 0x6d,
    0x00, 0x1b, 0x5b, 0x31, 0x6d, 0x00, 0x1b, 0x5b, 0x3f, 0x31, 0x30, 0x34, 0x39, 0x68, 0x1b, 0x5b,
    0x32, 0x32, 0x3b, 0x30, 0x3b, 0x30, 0x74, 0x00, 0x1b, 0x5b, 0x32, 0x6d, 0x00, 0x1b, 0x5b, 0x34,
    0x68, 0x00, 0x1b, 0x5b, 0x38, 0x6d, 0x00, 0x1b, 0x5b, 0x37, 0x6d, 0x00, 0x1b, 0x5b, 0x37, 0x6d,
    0x00, 0x1b, 0x5b, 0x34, 0x6d, 0x00, 0x1b, 0x5b, 0x25, 0x70, 0x31, 0x25, 0x64, 0x58, 0x00, 0x1b,
    0x28, 0x42, 0x00, 0x1b, 0x28, 0x42, 0x1b, 0x5b, 0x6d, 0x00, 0x1b, 0x5b, 0x3f, 0x31, 0x30, 0x34,
    0x39, 0x6c, 0x1b, 0x5b, 0x32, 0x33, 0x3b, 0x30, 0x3b, 0x30, 0x74, 0x00, 0x1b, 0x5b, 0x34, 0x6c,
    0x00, 0x1b, 0x5b, 0x32, 0x37, 0x6d, 0x00, 0x1b, 0x5b, 0x32, 0x34, 0x6d, 0x00, 0x1b, 0x5b, 0x3f,
    0x35, 0x68, 0x24, 0x3c, 0x31, 0x30, 0x30, 0x2f, 0x3e, 0x1b, 0x5b, 0x3f, 0x35, 0x6c, 0x00, 0x1b,
    0x5b, 0x21, 0x70, 0x1b, 0x5b, 0x3f, 0x33, 0x3b, 0x34, 0x6c, 0x1b, 0x5b, 0x34, 0x6c, 0x1b, 0x3e,
    0x00, 0x1b, 0x5b, 0x4c, 0x00, 0x7f, 0x00, 0x1b, 0x5b, 0x33, 0x7e, 0x00, 0x1b, 0x4f, 0x42, 0x00,
    0x1b, 0x4f, 0x50, 0x00, 0x1b, 0x5b, 0x32, 0x31, 0x7e, 0x00, 0x1b, 0x4f, 0x51, 0x00, 0x1b, 0x4f,
    0x52, 0x00, 0x1b, 0x4f, 0x53, 0x00, 0x1b, 0x5b, 0x31, 0x35, 0x7e, 0x00, 0x1b, 0x5b, 0x31, 0x37,
    0x7e, 0x00, 0x1b, 0x5b, 0x31, 0x38, 0x7e, 0x00, 0x1b, 0x5b, 0x31, 0x39, 0x7e, 0x00, 0x1b, 0x5b,
    0x32, 0x30, 0x7e, 0x00, 0x1b, 0x4f, 0x48, 0x00, 0x1b, 0x5b, 0x32, 0x7e, 0x00, 0x1b, 0x4f, 0x44,
    0x00, 0x1b, 0x5b, 0x36, 0x7e, 0x00, 0x1b, 0x5b, 0x35, 0x7e, 0x00, 0x1b, 0x4f, 0x43, 0x00, 0x1b,
    0x5b, 0x31, 0x3b, 0x32, 0x42, 0x00, 0x1b, 0x5b, 0x31, 0x3b, 0x32, 0x41, 0x00, 0x1b, 0x4f, 0x41,
    0x00, 0x1b, 0x5b, 0x3f, 0x31, 0x6c, 0x1b, 0x3e, 0x00, 0x1b, 0x5b, 0x3f, 0x31, 0x68, 0x1b, 0x3d,
    0x00, 0x1b, 0x5b, 0x3f, 0x31, 0x30, 0x33, 0x34, 0x6c, 0x00, 0x1b, 0x5b, 0x3f, 0x31, 0x30, 0x33,
    0x34, 0x68, 0x00, 0x1b, 0x45, 0x00, 0x1b, 0x5b, 0x25, 0x70, 0x31, 0x25, 0x64, 0x50, 0x00, 0x1b,
    0x5b, 0x25, 0x70, 0x31, 0x25, 0x64, 0x4d, 0x00, 0x1b, 0x5b, 0x25, 0x70, 0x31, 0x25, 0x64, 0x42,
    0x00, 0x1b, 0x5b, 0x25, 0x70, 0x31, 0x25, 0x64, 0x40, 0x00, 0x1b, 0x5b, 0x25, 0x70, 0x31, 0x25,
    0x64, 0x53, 0x00, 0x1b, 0x5b, 0x25, 0x70, 0x31, 0x25, 0x64, 0x4c, 0x00, 0x1b, 0x5b, 0x25, 0x70,
    0x31, 0x25, 0x64, 0x44, 0x00, 0x1b, 0x5b, 0x25, 0x70, 0x31, 0x25, 0x64, 0x43, 0x00, 0x1b, 0x5b,
    0x25, 0x70, 0x31, 0x25, 0x64, 0x54, 0x00, 0x1b, 0x5b, 0x25, 0x70, 0x31, 0x25, 0x64, 0x41, 0x00,
    0x1b, 0x5b, 0x69, 0x00, 0x1b, 0x5b, 0x34, 0x69, 0x00, 0x1b, 0x5b, 0x35, 0x69, 0x00, 0x25, 0x70,
    0x31, 0x25, 0x63, 0x1b, 0x5b, 0x25, 0x70, 0x32, 0x25, 0x7b, 0x31, 0x7d, 0x25, 0x2d, 0x25, 0x64,
    0x62, 0x00, 0x1b, 0x63, 0x00, 0x1b, 0x5b, 0x21, 0x70, 0x1b, 0x5b, 0x3f, 0x33, 0x3b, 0x34, 0x6c,
    0x1b, 0x5b, 0x34, 0x6c, 0x1b, 0x3e, 0x00, 0x1b, 0x38, 0x00, 0x1b, 0x5b, 0x25, 0x69, 0x25, 0x70,
    0x31, 0x25, 0x64, 0x64, 0x00, 0x1b, 0x37, 0x00, 0x0a, 0x00, 0x1b, 0x4d, 0x00, 0x25, 0x3f, 0x25,
    0x70, 0x39, 0x25, 0x74, 0x1b, 0x28, 0x30, 0x25, 0x65, 0x1b, 0x28, 0x42, 0x25, 0x3b, 0x1b, 0x5b,
    0x30, 0x25, 0x3f, 0x25, 0x70, 0x36, 0x25, 0x74, 0x3b, 0x31, 0x25, 0x3b, 0x25, 0x3f, 0x25, 0x70,
    0x35, 0x25, 0x74, 0x3b, 0x32, 0x25, 0x3b, 0x25, 0x3f, 0x25, 0x70, 0x32, 0x25, 0x74, 0x3b, 0x34,
    0x25, 0x3b, 0x25, 0x3f, 0x25, 0x70, 0x31, 0x25, 0x70, 0x33, 0x25, 0x7c, 0x25, 0x74, 0x3b, 0x37,
    0x25, 0x3b, 0x25, 0x3f, 0x25, 0x70, 0x34, 0x25, 0x74, 0x3b, 0x35, 0x25, 0x3b, 0x25, 0x3f, 0x25,
    0x70, 0x37, 0x25, 0x74, 0x3b, 0x38, 0x25, 0x3b, 0x6d, 0x00, 0x1b, 0x48, 0x00, 0x09, 0x00, 0x1b,
    0x4f, 0x77, 0x00, 0x1b, 0x4f, 0x79, 0x00, 0x1b, 0x4f, 0x75, 0x00, 0x1b, 0x4f, 0x71, 0x00, 0x1b,
    0x4f, 0x73, 0x00, 0x60, 0x60, 0x61, 0x61, 0x66, 0x66, 0x67, 0x67, 0x69, 0x69, 0x6a, 0x6a, 0x6b,
    0x6b, 0x6c, 0x6c, 0x6d, 0x6d, 0x6e, 0x6e, 0x6f, 0x6f, 0x70, 0x70, 0x71, 0x71, 0x72, 0x72, 0x73,
    0x73, 0x74, 0x74, 0x75, 0x75, 0x76, 0x76, 0x77, 0x77, 0x78, 0x78, 0x79, 0x79, 0x7a, 0x7a, 0x7b,
    0x7b, 0x7c, 0x7c, 0x7d, 0x7d, 0x7e, 0x7e, 0x00, 0x1b, 0x5b, 0x5a, 0x00, 0x1b, 0x5b, 0x3f, 0x37,
    0x68, 0x00, 0x1b, 0x5b, 0x3f, 0x37, 0x6c, 0x00, 0x1b, 0x4f, 0x45, 0x00, 0x1b, 0x4f, 0x46, 0x00,
    0x1b, 0x4f, 0x4d, 0x00, 0x1b, 0x5b, 0x33, 0x3b, 0x32, 0x7e, 0x00, 0x1b, 0x5b, 0x31, 0x3b, 0x32,
    0x46, 0x00, 0x1b, 0x5b, 0x31, 0x3b, 0x32, 0x48, 0x00, 0x1b, 0x5b, 0x32, 0x3b, 0x32, 0x7e, 0x00,
    0x1b, 0x5b, 0x31, 0x3b, 0x32, 0x44, 0x00, 0x1b, 0x5b, 0x36, 0x3b, 0x32, 0x7e, 0x00, 0x1b, 0x5b,
    0x35, 0x3b, 0x32, 0x7e, 0x00, 0x1b, 0x5b, 0x31, 0x3b, 0x32, 0x43, 0x00, 0x1b, 0x5b, 0x32, 0x33,
    0x7e, 0x00, 0x1b, 0x5b, 0x32, 0x34, 0x7e, 0x00, 0x1b, 0x5b, 0x31, 0x3b, 0x32, 0x50, 0x00, 0x1b,
    0x5b, 0x31, 0x3b, 0x32, 0x51, 0x00, 0x1b, 0x5b, 0x31, 0x3b, 0x32, 0x52, 0x00, 0x1b, 0x5b, 0x31,
    0x3b, 0x32, 0x53, 0x00, 0x1b, 0x5b, 0x31, 0x35, 0x3b, 0x32, 0x7e, 0x00, 0x1b, 0x5b, 0x31, 0x37,
    0x3b, 0x32, 0x7e, 0x00, 0x1b, 0x5b, 0x31, 0x38, 0x3b, 0x32, 0x7e, 0x00, 0x1b, 0x5b, 0x31, 0x39,
    0x3b, 0x32, 0x7e, 0x00, 0x1b, 0x5b, 0x32, 0x30, 0x3b, 0x32, 0x7e, 0x00, 0x1b, 0x5b, 0x32, 0x31,
    0x3b, 0x32, 0x7e, 0x00, 0x1b, 0x5b, 0x32, 0x33, 0x3b, 0x32, 0x7e, 0x00, 0x1b, 0x5b, 0x32, 0x34,
    0x3b, 0x32, 0x7e, 0x00, 0x1b, 0x5b, 0x31, 0x3b, 0x35, 0x50, 0x00, 0x1b, 0x5b, 0x31, 0x3b, 0x35,
    0x51, 0x00, 0x1b, 0x5b, 0x31, 0x3b, 0x35, 0x52, 0x00, 0x1b, 0x5b, 0x31, 0x3b, 0x35, 0x53, 0x00,
    0x1b, 0x5b, 0x31, 0x35, 0x3b, 0x35, 0x7e, 0x00, 0x1b, 0x5b, 0x31, 0x37, 0x3b, 0x35, 0x7e, 0x00,
    0x1b, 0x5b, 0x31, 0x38, 0x3b, 0x35, 0x7e, 0x00, 0x1b, 0x5b, 0x31, 0x39, 0x3b, 0x35, 0x7e, 0x00,
    0x1b, 0x5b, 0x32, 0x30, 0x3b, 0x35, 0x7e, 0x00, 0x1b, 0x5b, 0x32, 0x31, 0x3b, 0x35, 0x7e, 0x00,
    0x1b, 0x5b, 0x32, 0x33, 0x3b, 0x35, 0x7e, 0x00, 0x1b, 0x5b, 0x32, 0x34, 0x3b, 0x35, 0x7e, 0x00,
    0x1b, 0x5b, 0x31, 0x3b, 0x36, 0x50, 0x00, 0x1b, 0x5b, 0x31, 0x3b, 0x36, 0x51, 0x00, 0x1b, 0x5b,
    0x31, 0x3b, 0x36, 0x52, 0x00, 0x1b, 0x5b, 0x31, 0x3b, 0x36, 0x53, 0x00, 0x1b, 0x5b, 0x31, 0x35,
    0x3b, 0x36, 0x7e, 0x00, 0x1b, 0x5b, 0x31, 0x37, 0x3b, 0x36, 0x7e, 0x00, 0x1b, 0x5b, 0x31, 0x38,
    0x3b, 0x36, 0x7e, 0x00, 0x1b, 0x5b, 0x31, 0x39, 0x3b, 0x36, 0x7e, 0x00, 0x1b, 0x5b, 0x32, 0x30,
    0x3b, 0x36, 0x7e, 0x00, 0x1b, 0x5b, 0x32, 0x31, 0x3b, 0x36, 0x7e, 0x00, 0x1b, 0x5b, 0x32, 0x33,
    0x3b, 0x36, 0x7e, 0x00, 0x1b, 0x5b, 0x32, 0x34, 0x3b, 0x36, 0x7e, 0x00, 0x1b, 0x5b, 0x31, 0x3b,
    0x33, 0x50, 0x00, 0x1b, 0x5b, 0x31, 0x3b, 0x33, 0x51, 0x00, 0x1b, 0x5b, 0x31, 0x3b, 0x33, 0x52,
    0x00, 0x1b, 0x5b, 0x31, 0x3b, 0x33, 0x53, 0x00, 0x1b, 0x5b, 0x31, 0x35, 0x3b, 0x33, 0x7e, 0x00,
    0x1b, 0x5b, 0x31, 0x37, 0x3b, 0x33, 0x7e, 0x00, 0x1b, 0x5b, 0x31, 0x38, 0x3b, 0x33, 0x7e, 0x00,
    0x1b, 0x5b, 0x31, 0x39, 0x3b, 0x33, 0x7e, 0x00, 0x1b, 0x5b, 0x32, 0x30, 0x3b, 0x33, 0x7e, 0x00,
    0x1b, 0x5b, 0x32, 0x31, 0x3b, 0x33, 0x7e, 0x00, 0x1b, 0x5b, 0x32, 0x33, 0x3b, 0x33, 0x7e, 0x00,
    0x1b, 0x5b, 0x32, 0x34, 0x3b, 0x33, 0x7e, 0x00, 0x1b, 0x5b, 0x31, 0x3b, 0x34, 0x50, 0x00, 0x1b,
    0x5b, 0x31, 0x3b, 0x34, 0x51, 0x00, 0x1b, 0x5b, 0x31, 0x3b, 0x34, 0x52, 0x00, 0x1b, 0x5b, 0x31,
    0x4b, 0x00, 0x1b, 0x5b, 0x3f, 0x36, 0x39, 0x6c, 0x00, 0x1b, 0x5b, 0x25, 0x69, 0x25, 0x64, 0x3b,
    0x25, 0x64, 0x52, 0x00, 0x1b, 0x5b, 0x36, 0x6e, 0x00, 0x1b, 0x5b, 0x3f, 0x25, 0x5b, 0x3b, 0x30,
    0x31, 0x32, 0x33, 0x34, 0x35, 0x36, 0x37, 0x38, 0x39, 0x5d, 0x63, 0x00, 0x1b, 0x5b, 0x63, 0x00,
    0x1b, 0x5b, 0x33, 0x39, 0x3b, 0x34, 0x39, 0x6d, 0x00, 0x1b, 0x5b, 0x33, 0x25, 0x3f, 0x25, 0x70,
    0x31, 0x25, 0x7b, 0x31, 0x7d, 0x25, 0x3d, 0x25, 0x74, 0x34, 0x25, 0x65, 0x25, 0x70, 0x31, 0x25,
    0x7b, 0x33, 0x7d, 0x25, 0x3d, 0x25, 0x74, 0x36, 0x25, 0x65, 0x25, 0x70, 0x31, 0x25, 0x7b, 0x34,
    0x7d, 0x25, 0x3d, 0x25, 0x74, 0x31, 0x25, 0x65, 0x25, 0x70, 0x31, 0x25, 0x7b, 0x36, 0x7d, 0x25,
    0x3d, 0x25, 0x74, 0x33, 0x25, 0x65, 0x25, 0x70, 0x31, 0x25, 0x64, 0x25, 0x3b, 0x6d, 0x00, 0x1b,
    0x5b, 0x34, 0x25, 0x3f, 0x25, 0x70, 0x31, 0x25, 0x7b, 0x31, 0x7d, 0x25, 0x3d, 0x25, 0x74, 0x34,
    0x25, 0x65, 0x25, 0x70, 0x31, 0x25, 0x7b, 0x33, 0x7d, 0x25, 0x3d, 0x25, 0x74, 0x36, 0x25, 0x65,
    0x25, 0x70, 0x31, 0x25, 0x7b, 0x34, 0x7d, 0x25, 0x3d, 0x25, 0x74, 0x31, 0x25, 0x65, 0x25, 0x70,
    0x31, 0x25, 0x7b, 0x36, 0x7d, 0x25, 0x3d, 0x25, 0x74, 0x33, 0x25, 0x65, 0x25, 0x70, 0x31, 0x25,
    0x64, 0x25, 0x3b, 0x6d, 0x00, 0x1b, 0x5b, 0x33, 0x6d, 0x00, 0x1b, 0x5b, 0x32, 0x33, 0x6d, 0x00,
    0x1b, 0x5b, 0x3f, 0x36, 0x39, 0x68, 0x1b, 0x5b, 0x25, 0x69, 0x25, 0x70, 0x31, 0x25, 0x64, 0x73,
    0x00, 0x1b, 0x5b, 0x3f, 0x36, 0x39, 0x68, 0x1b, 0x5b, 0x25, 0x69, 0x3b, 0x25, 0x70, 0x31, 0x25,
    0x64, 0x73, 0x00, 0x1b, 0x5b, 0x3c, 0x00, 0x1b, 0x5b, 0x33, 0x25, 0x70, 0x31, 0x25, 0x64, 0x6d,
    0x00, 0x1b, 0x5b, 0x34, 0x25, 0x70, 0x31, 0x25, 0x64, 0x6d, 0x00, 0x1b, 0x5b, 0x3f, 0x36, 0x39,
    0x68, 0x1b, 0x5b, 0x25, 0x69, 0x25, 0x70, 0x31, 0x25, 0x64, 0x3b, 0x25, 0x70, 0x32, 0x25, 0x64,
    0x73, 0x00, 0x1b, 0x6c, 0x00, 0x1b, 0x6d, 0x00, 0x02, 0x00, 0x00, 0x00, 0x4e, 0x00, 0x9e, 0x00,
    0xd8, 0x03, 0x01, 0x01, 0x00, 0x00, 0x09, 0x00, 0x12, 0x00, 0x19, 0x00, 0x25, 0x00, 0x2a, 0x00,
    0x3c, 0x00, 0x43, 0x00, 0x4a, 0x00, 0x50, 0x00, 0x5a, 0x00, 0x7a, 0x00, 0x81, 0x00, 0x88, 0x00,
    0x8f, 0x00, 0x96, 0x00, 0x9d, 0x00, 0xa4, 0x00, 0xab, 0x00, 0xb2, 0x00, 0xb9, 0x00, 0xc0, 0x00,
    0xc7, 0x00, 0xce, 0x00, 0xd5, 0x00, 0xdc, 0x00, 0xe3, 0x00, 0xea, 0x00, 0xf1, 0x00, 0xf8, 0x00,
    0xff, 0x00, 0x06, 0x01, 0x0d, 0x01, 0x14, 0x01, 0x1b, 0x01, 0x22, 0x01, 0x29, 0x01, 0x30, 0x01,
    0x37, 0x01, 0x3e, 0x01, 0x45, 0x01, 0x4c, 0x01, 0x53, 0x01, 0x5a, 0x01, 0x61, 0x01, 0x68, 0x01,
    0x6f, 0x01, 0x76, 0x01, 0x7d, 0x01, 0x84, 0x01, 0x8b, 0x01, 0x92, 0x01, 0x99, 0x01, 0xa0, 0x01,
    0xa7, 0x01, 0xae, 0x01, 0xb5, 0x01, 0xbc, 0x01, 0xc3, 0x01, 0xca, 0x01, 0xd1, 0x01, 0xd8, 0x01,
    0xdf, 0x01, 0xe6, 0x01, 0xea, 0x01, 0xee, 0x01, 0xf2, 0x01, 0xf6, 0x01, 0xfa, 0x01, 0xfe, 0x01,
    0x02, 0x02, 0x06, 0x02, 0x0a, 0x02, 0x0e, 0x02, 0x12, 0x02, 0x16, 0x02, 0x1c, 0x02, 0x21, 0x02,
    0x00, 0x00, 0x03, 0x00, 0x06, 0x00, 0x09, 0x00, 0x0c, 0x00, 0x0f, 0x00, 0x12, 0x00, 0x15, 0x00,
    0x18, 0x00, 0x1b, 0x00, 0x1e, 0x00, 0x21, 0x00, 0x24, 0x00, 0x27, 0x00, 0x2c, 0x00, 0x31, 0x00,
    0x36, 0x00, 0x3b, 0x00, 0x40, 0x00, 0x44, 0x00, 0x49, 0x00, 0x4e, 0x00, 0x53, 0x00, 0x58, 0x00,
    0x5d, 0x00, 0x63, 0x00, 0x69, 0x00, 0x6f, 0x00, 0x75, 0x00, 0x7b, 0x00, 0x81, 0x00, 0x87, 0x00,
    0x8d, 0x00, 0x93, 0x00, 0x99, 0x00, 0x9e, 0x00, 0xa3, 0x00, 0xa8, 0x00, 0xad, 0x00, 0xb2, 0x00,
    0xb8, 0x00, 0xbe, 0x00, 0xc4, 0x00, 0xca, 0x00, 0xd0, 0x00, 0xd6, 0x00, 0xdc, 0x00, 0xe2, 0x00,
    0xe8, 0x00, 0xee, 0x00, 0xf4, 0x00, 0xfa, 0x00, 0x00, 0x01, 0x06, 0x01, 0x0c, 0x01, 0x12, 0x01,
    0x18, 0x01, 0x1e, 0x01, 0x24, 0x01, 0x2a, 0x01, 0x2e, 0x01, 0x33, 0x01, 0x38, 0x01, 0x3d, 0x01,
    0x42, 0x01, 0x47, 0x01, 0x4b, 0x01, 0x4f, 0x01, 0x53, 0x01, 0x57, 0x01, 0x5b, 0x01, 0x61, 0x01,
    0x67, 0x01, 0x6d, 0x01, 0x73, 0x01, 0x79, 0x01, 0x7f, 0x01, 0x85, 0x01, 0x8a, 0x01, 0x8f, 0x01,
    0x1b, 0x5b, 0x3f, 0x32, 0x30, 0x30, 0x34, 0x6c, 0x00, 0x1b, 0x5b, 0x3f, 0x32, 0x30, 0x30, 0x34,
    0x68, 0x00, 0x1b, 0x5d, 0x31, 0x31, 0x32, 0x07, 0x00, 0x1b, 0x5d, 0x31, 0x32, 0x3b, 0x25, 0x70,
    0x31, 0x25, 0x73, 0x07, 0x00, 0x1b, 0x5b, 0x33, 0x4a, 0x00, 0x1b, 0x5d, 0x35, 0x32, 0x3b, 0x25,
    0x70, 0x31, 0x25, 0x73, 0x3b, 0x25, 0x70, 0x32, 0x25, 0x73, 0x07, 0x00, 0x1b, 0x5b, 0x32, 0x30,
    0x31, 0x7e, 0x00, 0x1b, 0x5b, 0x32, 0x30, 0x30, 0x7e, 0x00, 0x1b, 0x5b, 0x32, 0x20, 0x71, 0x00,
    0x1b, 0x5b, 0x25, 0x70, 0x31, 0x25, 0x64, 0x20, 0x71, 0x00, 0x1b, 0x5b, 0x3f, 0x31, 0x30, 0x30,
    0x36, 0x3b, 0x31, 0x30, 0x30, 0x30, 0x25, 0x3f, 0x25, 0x70, 0x31, 0x25, 0x7b, 0x31, 0x7d, 0x25,
    0x3d, 0x25, 0x74, 0x68, 0x25, 0x65, 0x6c, 0x25, 0x3b, 0x00, 0x1b, 0x5b, 0x33, 0x3b, 0x33, 0x7e,
    0x00, 0x1b, 0x5b, 0x33, 0x3b, 0x34, 0x7e, 0x00, 0x1b, 0x5b, 0x33, 0x3b, 0x35, 0x7e, 0x00, 0x1b,
    0x5b, 0x33, 0x3b, 0x36, 0x7e, 0x00, 0x1b, 0x5b, 0x33, 0x3b, 0x37, 0x7e, 0x00, 0x1b, 0x5b, 0x31,
    0x3b, 0x32, 0x42, 0x00, 0x1b, 0x5b, 0x31, 0x3b, 0x33, 0x42, 0x00, 0x1b, 0x5b, 0x31, 0x3b, 0x34,
    0x42, 0x00, 0x1b, 0x5b, 0x31, 0x3b, 0x35, 0x42, 0x00, 0x1b, 0x5b, 0x31, 0x3b, 0x36, 0x42, 0x00,
    0x1b, 0x5b, 0x31, 0x3b, 0x37, 0x42, 0x00, 0x1b, 0x5b, 0x31, 0x3b, 0x33, 0x46, 0x00, 0x1b, 0x5b,
    0x31, 0x3b, 0x34, 0x46, 0x00, 0x1b, 0x5b, 0x31, 0x3b, 0x35, 0x46, 0x00, 0x1b, 0x5b, 0x31, 0x3b,
    0x36, 0x46, 0x00, 0x1b, 0x5b, 0x31, 0x3b, 0x37, 0x46, 0x00, 0x1b, 0x5b, 0x31, 0x3b, 0x33, 0x48,
    0x00, 0x1b, 0x5b, 0x31, 0x3b, 0x34, 0x48, 0x00, 0x1b, 0x5b, 0x31, 0x3b, 0x35, 0x48, 0x00, 0x1b,
    0x5b, 0x31, 0x3b, 0x36, 0x48, 0x00, 0x1b, 0x5b, 0x31, 0x3b, 0x37, 0x48, 0x00, 0x1b, 0x5b, 0x32,
    0x3b, 0x33, 0x7e, 0x00, 0x1b, 0x5b, 0x32, 0x3b, 0x34, 0x7e, 0x00, 0x1b, 0x5b, 0x32, 0x3b, 0x35,
    0x7e, 0x00, 0x1b, 0x5b, 0x32, 0x3b, 0x36, 0x7e, 0x00, 0x1b, 0x5b, 0x32, 0x3b, 0x37, 0x7e, 0x00,
    0x1b, 0x5b, 0x31, 0x3b, 0x33, 0x44, 0x00, 0x1b, 0x5b, 0x31, 0x3b, 0x34, 0x44, 0x00, 0x1b, 0x5b,
    0x31, 0x3b, 0x35, 0x44, 0x00, 0x1b, 0x5b, 0x31, 0x3b, 0x36, 0x44, 0x00, 0x1b, 0x5b, 0x31, 0x3b,
    0x37, 0x44, 0x00, 0x1b, 0x5b, 0x36, 0x3b, 0x33, 0x7e, 0x00, 0x1b, 0x5b, 0x36, 0x3b, 0x34, 0x7e,
    0x00, 0x1b, 0x5b, 0x36, 0x3b, 0x35, 0x7e, 0x00, 0x1b, 0x5b, 0x36, 0x3b, 0x36, 0x7e, 0x00, 0x1b,
    0x5b, 0x36, 0x3b, 0x37, 0x7e, 0x00, 0x1b, 0x5b, 0x35, 0x3b, 0x33, 0x7e, 0x00, 0x1b, 0x5b, 0x35,
    0x3b, 0x34, 0x7e, 0x00, 0x1b, 0x5b, 0x35, 0x3b, 0x35, 0x7e, 0x00, 0x1b, 0x5b, 0x35, 0x3b, 0x36,
    0x7e, 0x00, 0x1b, 0x5b, 0x35, 0x3b, 0x37, 0x7e, 0x00, 0x1b, 0x5b, 0x31, 0x3b, 0x33, 0x43, 0x00,
    0x1b, 0x5b, 0x31, 0x3b, 0x34, 0x43, 0x00, 0x1b, 0x5b, 0x31, 0x3b, 0x35, 0x43, 0x00, 0x1b, 0x5b,
    0x31, 0x3b, 0x36, 0x43, 0x00, 0x1b, 0x5b, 0x31, 0x3b, 0x37, 0x43, 0x00, 0x1b, 0x5b, 0x31, 0x3b,
    0x32, 0x41, 0x00, 0x1b, 0x5b, 0x31, 0x3b, 0x33, 0x41, 0x00, 0x1b, 0x5b, 0x31, 0x3b, 0x34, 0x41,
    0x00, 0x1b, 0x5b, 0x31, 0x3b, 0x35, 0x41, 0x00, 0x1b, 0x5b, 0x31, 0x3b, 0x36, 0x41, 0x00, 0x1b,
    0x5b, 0x31, 0x3b, 0x37, 0x41, 0x00, 0x1b, 0x4f, 0x78, 0x00, 0x1b, 0x4f, 0x74, 0x00, 0x1b, 0x4f,
    0x76, 0x00, 0x1b, 0x4f, 0x72, 0x00, 0x1b, 0x4f, 0x45, 0x00, 0x1b, 0x4f, 0x6b, 0x00, 0x1b, 0x4f,
    0x6c, 0x00, 0x1b, 0x4f, 0x6f, 0x00, 0x1b, 0x4f, 0x6e, 0x00, 0x1b, 0x4f, 0x6a, 0x00, 0x1b, 0x4f,
    0x6d, 0x00, 0x1b, 0x4f, 0x70, 0x00, 0x1b, 0x5b, 0x32, 0x39, 0x6d, 0x00, 0x1b, 0x5b, 0x39, 0x6d,
    0x00, 0x1b, 0x5b, 0x3c, 0x25, 0x69, 0x25, 0x70, 0x33, 0x25, 0x64, 0x3b, 0x25, 0x70, 0x31, 0x25,
    0x64, 0x3b, 0x25, 0x70, 0x32, 0x25, 0x64, 0x3b, 0x25, 0x3f, 0x25, 0x70, 0x34, 0x25, 0x74, 0x4d,
    0x25, 0x65, 0x6d, 0x25, 0x3b, 0x00, 0x41, 0x58, 0x00, 0x58, 0x54, 0x00, 0x42, 0x44, 0x00, 0x42,
    0x45, 0x00, 0x43, 0x72, 0x00, 0x43, 0x73, 0x00, 0x45, 0x33, 0x00, 0x4d, 0x73, 0x00, 0x50, 0x45,
    0x00, 0x50, 0x53, 0x00, 0x53, 0x65, 0x00, 0x53, 0x73, 0x00, 0x58, 0x4d, 0x00, 0x6b, 0x44, 0x43,
    0x33, 0x00, 0x6b, 0x44, 0x43, 0x34, 0x00, 0x6b, 0x44, 0x43, 0x35, 0x00, 0x6b, 0x44, 0x43, 0x36,
    0x00, 0x6b, 0x44, 0x43, 0x37, 0x00, 0x6b, 0x44, 0x4e, 0x00, 0x6b, 0x44, 0x4e, 0x33, 0x00, 0x6b,
    0x44, 0x4e, 0x34, 0x00, 0x6b, 0x44, 0x4e, 0x35, 0x00, 0x6b, 0x44, 0x4e, 0x36, 0x00, 0x6b, 0x44,
    0x4e, 0x37, 0x00, 0x6b, 0x45, 0x4e, 0x44, 0x33, 0x00, 0x6b, 0x45, 0x4e, 0x44, 0x34, 0x00, 0x6b,
    0x45, 0x4e, 0x44, 0x35, 0x00, 0x6b, 0x45, 0x4e, 0x44, 0x36, 0x00, 0x6b, 0x45, 0x4e, 0x44, 0x37,
    0x00, 0x6b, 0x48, 0x4f, 0x4d, 0x33, 0x00, 0x6b, 0x48, 0x4f, 0x4d, 0x34, 0x00, 0x6b, 0x48, 0x4f,
    0x4d, 0x35, 0x00, 0x6b, 0x48, 0x4f, 0x4d, 0x36, 0x00, 0x6b, 0x48, 0x4f, 0x4d, 0x37, 0x00, 0x6b,
    0x49, 0x43, 0x33, 0x00, 0x6b, 0x49, 0x43, 0x34, 0x00, 0x6b, 0x49, 0x43, 0x35, 0x00, 0x6b, 0x49,
    0x43, 0x36, 0x00, 0x6b, 0x49, 0x43, 0x37, 0x00, 0x6b, 0x4c, 0x46, 0x54, 0x33, 0x00, 0x6b, 0x4c,
    0x46, 0x54, 0x34, 0x00, 0x6b, 0x4c, 0x46, 0x54, 0x35, 0x00, 0x6b, 0x4c, 0x46, 0x54, 0x36, 0x00,
    0x6b, 0x4c, 0x46, 0x54, 0x37, 0x00, 0x6b, 0x4e, 0x58, 0x54, 0x33, 0x00, 0x6b, 0x4e, 0x58, 0x54,
    0x34, 0x00, 0x6b, 0x4e, 0x58, 0x54, 0x35, 0x00, 0x6b, 0x4e, 0x58, 0x54, 0x36, 0x00, 0x6b, 0x4e,
    0x58, 0x54, 0x37, 0x00, 0x6b, 0x50, 0x52, 0x56, 0x33, 0x00, 0x6b, 0x50, 0x52, 0x56, 0x34, 0x00,
    0x6b, 0x50, 0x52, 0x56, 0x35, 0x00, 0x6b, 0x50, 0x52, 0x56, 0x36, 0x00, 0x6b, 0x50, 0x52, 0x56,
    0x37, 0x00, 0x6b, 0x52, 0x49, 0x54, 0x33, 0x00, 0x6b, 0x52, 0x49, 0x54, 0x34, 0x00, 0x6b, 0x52,
    0x49, 0x54, 0x35, 0x00, 0x6b, 0x52, 0x49, 0x54, 0x36, 0x00, 0x6b, 0x52, 0x49, 0x54, 0x37, 0x00,
    0x6b, 0x55, 0x50, 0x00, 0x6b, 0x55, 0x50, 0x33, 0x00, 0x6b, 0x55, 0x50, 0x34, 0x00, 0x6b, 0x55,
    0x50, 0x35, 0x00, 0x6b, 0x55, 0x50, 0x36, 0x00, 0x6b, 0x55, 0x50, 0x37, 0x00, 0x6b, 0x61, 0x32,
    0x00, 0x6b, 0x62, 0x31, 0x00, 0x6b, 0x62, 0x33, 0x00, 0x6b, 0x63, 0x32, 0x00, 0x6b, 0x70, 0x35,
    0x00, 0x6b, 0x70, 0x41, 0x44, 0x44, 0x00, 0x6b, 0x70, 0x43, 0x4d, 0x41, 0x00, 0x6b, 0x70, 0x44,
    0x49, 0x56, 0x00, 0x6b, 0x70, 0x44, 0x4f, 0x54, 0x00, 0x6b, 0x70, 0x4d, 0x55, 0x4c, 0x00, 0x6b,
    0x70, 0x53, 0x55, 0x42, 0x00, 0x6b, 0x70, 0x5a, 0x52, 0x4f, 0x00, 0x72, 0x6d, 0x78, 0x78, 0x00,
    0x73, 0x6d, 0x78, 0x78, 0x00, 0x78, 0x6d, 0x00,
];

fn xterm() -> Terminfo {
    Terminfo::parse(XTERM).expect("parse xterm terminfo")
}

#[test]
fn parses_names() {
    let t = xterm();
    assert_eq!(t.names.first().map(String::as_str), Some("xterm"));
    assert!(t.names.iter().any(|n| n.contains("X Window System")));
}

#[test]
fn string_caps_derive_seed_sequences() {
    let t = xterm();
    assert_eq!(t.string("clear"), Some(&b"\x1b[H\x1b[2J"[..]));
    assert_eq!(t.string("el"), Some(&b"\x1b[K"[..]));
    assert_eq!(t.string("ed"), Some(&b"\x1b[J"[..]));
    assert_eq!(t.string("el1"), Some(&b"\x1b[1K"[..]));
    assert_eq!(t.string("cuu1"), Some(&b"\x1b[A"[..]));
    assert_eq!(t.string("home"), Some(&b"\x1b[H"[..]));
    assert_eq!(t.string("bel"), Some(&b"\x07"[..]));
    assert_eq!(t.string("smcup"), Some(&b"\x1b[?1049h\x1b[22;0;0t"[..]));
    assert_eq!(t.string("rmcup"), Some(&b"\x1b[?1049l\x1b[23;0;0t"[..]));
    assert_eq!(t.string("op"), Some(&b"\x1b[39;49m"[..]));
    assert_eq!(t.string("sgr0"), Some(&b"\x1b(B\x1b[m"[..]));
}

#[test]
fn numeric_and_boolean_caps() {
    let t = xterm();
    assert_eq!(t.tigetnum("cols"), 80);
    assert_eq!(t.tigetnum("lines"), 24);
    assert_eq!(t.tigetnum("colors"), 8);
    assert_eq!(t.tigetflag("am"), 1);
    assert_eq!(t.tigetflag("bce"), 1);
}

#[test]
fn ncurses_return_semantics() {
    let t = xterm();
    assert_eq!(t.tigetnum("nosuchcap"), -2);
    assert_eq!(t.tigetflag("nosuchcap"), -1);
    assert_eq!(t.tigetstr("nosuchcap"), Tigetstr::NotString);
}

#[test]
fn tputs_strips_padding() {
    assert_eq!(tputs(b"X$<5>Y"), b"XY");
    assert_eq!(tputs(b"A$<10*>B"), b"AB");
    assert_eq!(tputs(b"P$<100/>Q"), b"PQ");
    assert_eq!(tputs(b"Z$<3.5>W"), b"ZW");
    assert_eq!(tputs(b"\x1b[?5h$<100/>\x1b[?5l"), b"\x1b[?5h\x1b[?5l");
    assert_eq!(tputs(b"nodelay"), b"nodelay");
    assert_eq!(tputs(b"cost$5"), b"cost$5");
    assert_eq!(tputs(b"a$<b"), b"a$<b");
    assert_eq!(putp(b"x$<2>y"), b"xy");
}

#[test]
fn tputs_derives_flash() {
    let t = xterm();
    assert_eq!(tputs(t.string("flash").unwrap()), b"\x1b[?5h\x1b[?5l");
}

#[test]
fn tparm_simple_params() {
    let t = xterm();
    let cup = t.string("cup").unwrap().to_vec();
    assert_eq!(tparm_n(&cup, &[2, 4]), b"\x1b[3;5H");
    assert_eq!(tparm_n(t.string("hpa").unwrap(), &[7]), b"\x1b[8G");
    assert_eq!(tparm_n(t.string("vpa").unwrap(), &[1]), b"\x1b[2d");
    assert_eq!(tparm_n(t.string("setaf").unwrap(), &[2]), b"\x1b[32m");
    assert_eq!(tparm_n(t.string("setab").unwrap(), &[4]), b"\x1b[44m");
    assert_eq!(tparm_n(t.string("cuf").unwrap(), &[3]), b"\x1b[3C");
}

#[test]
fn tparm_conditionals_via_setf() {
    let t = xterm();
    let setf = t.string("setf").unwrap().to_vec();
    assert_eq!(tparm_n(&setf, &[1]), b"\x1b[34m");
    assert_eq!(tparm_n(&setf, &[0]), b"\x1b[30m");
    assert_eq!(tparm_n(&setf, &[2]), b"\x1b[32m");
}

#[test]
fn tparm_printf_specs() {
    assert_eq!(tparm_n(b"%p1%d", &[42]), b"42");
    assert_eq!(tparm_n(b"%p1%03d", &[7]), b"007");
    assert_eq!(tparm_n(b"%p1%2d", &[7]), b" 7");
    assert_eq!(tparm_n(b"%p1%x", &[255]), b"ff");
    assert_eq!(tparm_n(b"%p1%c", &[b'Z' as i32]), b"Z");
    assert_eq!(tparm_n(b"%p1%c", &[0]), &[0o200u8]);
    assert_eq!(tparm_n(b"\x1f%p1%c%p2%c", &[0, 5]), &[0x1f, 0o200, 0x05]);
    assert_eq!(tparm(b"%p1%s", &[Param::Str(b"hi".to_vec())]), b"hi");
    assert_eq!(tparm_n(b"%{5}%{3}%-%d", &[]), b"2");
    assert_eq!(tparm_n(b"%%", &[]), b"%");
}

#[test]
fn rejects_bad_magic() {
    assert_eq!(
        Terminfo::parse(&[0, 0, 0, 0, 0, 0, 0, 0, 0, 0, 0, 0]),
        Err(ParseError::BadMagic(0))
    );
    assert_eq!(Terminfo::parse(&[1, 2, 3]), Err(ParseError::ShortHeader));
}

#[test]
fn color_caps() {
    let t = xterm();
    assert!(t.has_colors());
    assert!(!t.can_change_color());
}

#[test]
fn curs_set_levels() {
    let t = xterm();
    assert_eq!(t.curs_set(0).as_deref(), Some(&b"\x1b[?25l"[..]));
    assert_eq!(t.curs_set(1).as_deref(), Some(&b"\x1b[?12l\x1b[?25h"[..]));
    assert_eq!(t.curs_set(2).as_deref(), Some(&b"\x1b[?12;25h"[..]));
    assert_eq!(t.curs_set(3), None);
}

#[test]
fn terminal_queries() {
    let t = xterm();
    assert_eq!(t.longname(), "xterm terminal emulator (X Window System)");
    assert_eq!(t.termname(), "xterm");
    assert!(t.has_ic());
    assert!(t.has_il());
}

#[test]
fn termcap_layer() {
    let t = xterm();
    assert_eq!(t.tgetflag("am"), 1);
    assert_eq!(t.tgetflag("ZZ"), 0);
    assert_eq!(t.tgetnum("co"), 80);
    assert_eq!(t.tgetnum("li"), 24);
    assert_eq!(t.tgetnum("ZZ"), -1);
    assert_eq!(t.tgetstr("cl"), Some(&b"\x1b[H\x1b[2J"[..]));
    assert_eq!(t.tgetstr("ce"), Some(&b"\x1b[K"[..]));
    assert_eq!(t.tgetstr("cm"), Some(&b"\x1b[%i%p1%d;%p2%dH"[..]));
    assert_eq!(t.tgetstr("ZZ"), None);
    let cm = t.tgetstr("cm").unwrap().to_vec();
    assert_eq!(tgoto(&cm, 4, 2), b"\x1b[3;5H");
}

#[test]
fn truncated_entry_is_refused() {
    let cut = &XTERM[..100];
    assert!(Terminfo::parse(cut).is_err());
}

#[test]
fn from_terminfo_xterm_matches_new_screen() {
    let t = xterm();
    let (rows, cols) = (24, 80);
    let mut g = vec![Cell::plain(' ', 0); (rows * cols) as usize];
    for (k, b) in b"hello".iter().enumerate() {
        g[(3 * cols + 4 + k as i32) as usize] = Cell::plain(*b as char, 0);
    }
    let mut a = Screen::new(rows, cols);
    let mut b = Screen::from_terminfo(rows, cols, &t, Palette::new());
    assert_eq!(a.doupdate(&g, 3, 9), b.doupdate(&g, 3, 9));
}

#[test]
fn key_map_from_xterm() {
    let t = xterm();
    let km = KeyMap::from_terminfo(&t);
    assert_eq!(km.key_defined(b"\x1bOA"), 259);
    assert_eq!(km.key_defined(b"\x1bOP"), 265);
    assert_eq!(km.key_defined(b"\x1b[3~"), 330);
    assert_eq!(km.key_defined(b"\x1b"), -1);
    assert_eq!(km.key_defined(b"\x1b[A"), 0);
    assert!(km.has_key(259) && km.has_key(265));
    assert!(!km.has_key(99999));
}

#[test]
fn decode_mixed_buffer() {
    let t = xterm();
    let km = KeyMap::from_terminfo(&t);
    assert_eq!(
        km.decode(b"hi\x1bOAx\x1bOP\x1b[3~"),
        vec![104, 105, 259, 120, 265, 330]
    );
    assert_eq!(km.decode(b"AB"), vec![65, 66]);
}

#[test]
fn keyname_formats() {
    assert_eq!(keyname(65).as_deref(), Some("A"));
    assert_eq!(keyname(9).as_deref(), Some("^I"));
    assert_eq!(keyname(1).as_deref(), Some("^A"));
    assert_eq!(keyname(27).as_deref(), Some("^["));
    assert_eq!(keyname(127).as_deref(), Some("^?"));
    assert_eq!(keyname(26).as_deref(), Some("^Z"));
    assert_eq!(keyname(193).as_deref(), Some("M-A"));
    assert_eq!(keyname(259).as_deref(), Some("KEY_UP"));
    assert_eq!(keyname(265).as_deref(), Some("KEY_F(1)"));
    assert_eq!(keyname(-1).as_deref(), Some("-1"));
    assert_eq!(keyname(633), None);
}

const XTERM_SOURCE: &str = r##"xterm|xterm-debian|xterm terminal emulator (X Window System),
	am,
	bce,
	km,
	mc5i,
	mir,
	msgr,
	npc,
	xenl,
	colors#8,
	cols#80,
	it#8,
	lines#24,
	pairs#64,
	acsc=``aaffggiijjkkllmmnnooppqqrrssttuuvvwwxxyyzz{{||}}~~,
	bel=^G,
	blink=\E[5m,
	bold=\E[1m,
	cbt=\E[Z,
	civis=\E[?25l,
	clear=\E[H\E[2J,
	cnorm=\E[?12l\E[?25h,
	cr=\r,
	csr=\E[%i%p1%d;%p2%dr,
	cub=\E[%p1%dD,
	cub1=^H,
	cud=\E[%p1%dB,
	cud1=\n,
	cuf=\E[%p1%dC,
	cuf1=\E[C,
	cup=\E[%i%p1%d;%p2%dH,
	cuu=\E[%p1%dA,
	cuu1=\E[A,
	cvvis=\E[?12;25h,
	dch=\E[%p1%dP,
	dch1=\E[P,
	dim=\E[2m,
	dl=\E[%p1%dM,
	dl1=\E[M,
	ech=\E[%p1%dX,
	ed=\E[J,
	el=\E[K,
	el1=\E[1K,
	flash=\E[?5h$<100/>\E[?5l,
	home=\E[H,
	hpa=\E[%i%p1%dG,
	ht=^I,
	hts=\EH,
	ich=\E[%p1%d@,
	il=\E[%p1%dL,
	il1=\E[L,
	ind=\n,
	indn=\E[%p1%dS,
	invis=\E[8m,
	is2=\E[!p\E[?3;4l\E[4l\E>,
	kDC=\E[3;2~,
	kEND=\E[1;2F,
	kHOM=\E[1;2H,
	kIC=\E[2;2~,
	kLFT=\E[1;2D,
	kNXT=\E[6;2~,
	kPRV=\E[5;2~,
	kRIT=\E[1;2C,
	ka1=\EOw,
	ka3=\EOy,
	kb2=\EOu,
	kbeg=\EOE,
	kbs=^?,
	kc1=\EOq,
	kc3=\EOs,
	kcbt=\E[Z,
	kcub1=\EOD,
	kcud1=\EOB,
	kcuf1=\EOC,
	kcuu1=\EOA,
	kdch1=\E[3~,
	kend=\EOF,
	kent=\EOM,
	kf1=\EOP,
	kf10=\E[21~,
	kf11=\E[23~,
	kf12=\E[24~,
	kf13=\E[1;2P,
	kf14=\E[1;2Q,
	kf15=\E[1;2R,
	kf16=\E[1;2S,
	kf17=\E[15;2~,
	kf18=\E[17;2~,
	kf19=\E[18;2~,
	kf2=\EOQ,
	kf20=\E[19;2~,
	kf21=\E[20;2~,
	kf22=\E[21;2~,
	kf23=\E[23;2~,
	kf24=\E[24;2~,
	kf25=\E[1;5P,
	kf26=\E[1;5Q,
	kf27=\E[1;5R,
	kf28=\E[1;5S,
	kf29=\E[15;5~,
	kf3=\EOR,
	kf30=\E[17;5~,
	kf31=\E[18;5~,
	kf32=\E[19;5~,
	kf33=\E[20;5~,
	kf34=\E[21;5~,
	kf35=\E[23;5~,
	kf36=\E[24;5~,
	kf37=\E[1;6P,
	kf38=\E[1;6Q,
	kf39=\E[1;6R,
	kf4=\EOS,
	kf40=\E[1;6S,
	kf41=\E[15;6~,
	kf42=\E[17;6~,
	kf43=\E[18;6~,
	kf44=\E[19;6~,
	kf45=\E[20;6~,
	kf46=\E[21;6~,
	kf47=\E[23;6~,
	kf48=\E[24;6~,
	kf49=\E[1;3P,
	kf5=\E[15~,
	kf50=\E[1;3Q,
	kf51=\E[1;3R,
	kf52=\E[1;3S,
	kf53=\E[15;3~,
	kf54=\E[17;3~,
	kf55=\E[18;3~,
	kf56=\E[19;3~,
	kf57=\E[20;3~,
	kf58=\E[21;3~,
	kf59=\E[23;3~,
	kf6=\E[17~,
	kf60=\E[24;3~,
	kf61=\E[1;4P,
	kf62=\E[1;4Q,
	kf63=\E[1;4R,
	kf7=\E[18~,
	kf8=\E[19~,
	kf9=\E[20~,
	khome=\EOH,
	kich1=\E[2~,
	kind=\E[1;2B,
	kmous=\E[<,
	knp=\E[6~,
	kpp=\E[5~,
	kri=\E[1;2A,
	mc0=\E[i,
	mc4=\E[4i,
	mc5=\E[5i,
	meml=\El,
	memu=\Em,
	mgc=\E[?69l,
	nel=\EE,
	op=\E[39;49m,
	rc=\E8,
	rep=%p1%c\E[%p2%{1}%-%db,
	rev=\E[7m,
	ri=\EM,
	rin=\E[%p1%dT,
	ritm=\E[23m,
	rmacs=\E(B,
	rmam=\E[?7l,
	rmcup=\E[?1049l\E[23;0;0t,
	rmir=\E[4l,
	rmkx=\E[?1l\E>,
	rmm=\E[?1034l,
	rmso=\E[27m,
	rmul=\E[24m,
	rs1=\Ec,
	rs2=\E[!p\E[?3;4l\E[4l\E>,
	sc=\E7,
	setab=\E[4%p1%dm,
	setaf=\E[3%p1%dm,
	setb=\E[4%?%p1%{1}%=%t4%e%p1%{3}%=%t6%e%p1%{4}%=%t1%e%p1%{6}%=%t3%e%p1%d%;m,
	setf=\E[3%?%p1%{1}%=%t4%e%p1%{3}%=%t6%e%p1%{4}%=%t1%e%p1%{6}%=%t3%e%p1%d%;m,
	sgr=%?%p9%t\E(0%e\E(B%;\E[0%?%p6%t;1%;%?%p5%t;2%;%?%p2%t;4%;%?%p1%p3%|%t;7%;%?%p4%t;5%;%?%p7%t;8%;m,
	sgr0=\E(B\E[m,
	sitm=\E[3m,
	smacs=\E(0,
	smam=\E[?7h,
	smcup=\E[?1049h\E[22;0;0t,
	smglp=\E[?69h\E[%i%p1%ds,
	smglr=\E[?69h\E[%i%p1%d;%p2%ds,
	smgrp=\E[?69h\E[%i;%p1%ds,
	smir=\E[4h,
	smkx=\E[?1h\E=,
	smm=\E[?1034h,
	smso=\E[7m,
	smul=\E[4m,
	tbc=\E[3g,
	u6=\E[%i%d;%dR,
	u7=\E[6n,
	u8=\E[?%[;0123456789]c,
	u9=\E[c,
	vpa=\E[%i%p1%dd,
"##;

const XTERM_SOURCE_X: &str = r##"xterm|xterm-debian|xterm terminal emulator (X Window System),
	OTbs,
	am,
	bce,
	km,
	mc5i,
	mir,
	msgr,
	npc,
	xenl,
	AX,
	XT,
	colors#8,
	cols#80,
	it#8,
	lines#24,
	pairs#64,
	acsc=``aaffggiijjkkllmmnnooppqqrrssttuuvvwwxxyyzz{{||}}~~,
	bel=^G,
	blink=\E[5m,
	bold=\E[1m,
	cbt=\E[Z,
	civis=\E[?25l,
	clear=\E[H\E[2J,
	cnorm=\E[?12l\E[?25h,
	cr=\r,
	csr=\E[%i%p1%d;%p2%dr,
	cub=\E[%p1%dD,
	cub1=^H,
	cud=\E[%p1%dB,
	cud1=\n,
	cuf=\E[%p1%dC,
	cuf1=\E[C,
	cup=\E[%i%p1%d;%p2%dH,
	cuu=\E[%p1%dA,
	cuu1=\E[A,
	cvvis=\E[?12;25h,
	dch=\E[%p1%dP,
	dch1=\E[P,
	dim=\E[2m,
	dl=\E[%p1%dM,
	dl1=\E[M,
	ech=\E[%p1%dX,
	ed=\E[J,
	el=\E[K,
	el1=\E[1K,
	flash=\E[?5h$<100/>\E[?5l,
	home=\E[H,
	hpa=\E[%i%p1%dG,
	ht=^I,
	hts=\EH,
	ich=\E[%p1%d@,
	il=\E[%p1%dL,
	il1=\E[L,
	ind=\n,
	indn=\E[%p1%dS,
	invis=\E[8m,
	is2=\E[!p\E[?3;4l\E[4l\E>,
	kDC=\E[3;2~,
	kEND=\E[1;2F,
	kHOM=\E[1;2H,
	kIC=\E[2;2~,
	kLFT=\E[1;2D,
	kNXT=\E[6;2~,
	kPRV=\E[5;2~,
	kRIT=\E[1;2C,
	ka1=\EOw,
	ka3=\EOy,
	kb2=\EOu,
	kbeg=\EOE,
	kbs=^?,
	kc1=\EOq,
	kc3=\EOs,
	kcbt=\E[Z,
	kcub1=\EOD,
	kcud1=\EOB,
	kcuf1=\EOC,
	kcuu1=\EOA,
	kdch1=\E[3~,
	kend=\EOF,
	kent=\EOM,
	kf1=\EOP,
	kf10=\E[21~,
	kf11=\E[23~,
	kf12=\E[24~,
	kf13=\E[1;2P,
	kf14=\E[1;2Q,
	kf15=\E[1;2R,
	kf16=\E[1;2S,
	kf17=\E[15;2~,
	kf18=\E[17;2~,
	kf19=\E[18;2~,
	kf2=\EOQ,
	kf20=\E[19;2~,
	kf21=\E[20;2~,
	kf22=\E[21;2~,
	kf23=\E[23;2~,
	kf24=\E[24;2~,
	kf25=\E[1;5P,
	kf26=\E[1;5Q,
	kf27=\E[1;5R,
	kf28=\E[1;5S,
	kf29=\E[15;5~,
	kf3=\EOR,
	kf30=\E[17;5~,
	kf31=\E[18;5~,
	kf32=\E[19;5~,
	kf33=\E[20;5~,
	kf34=\E[21;5~,
	kf35=\E[23;5~,
	kf36=\E[24;5~,
	kf37=\E[1;6P,
	kf38=\E[1;6Q,
	kf39=\E[1;6R,
	kf4=\EOS,
	kf40=\E[1;6S,
	kf41=\E[15;6~,
	kf42=\E[17;6~,
	kf43=\E[18;6~,
	kf44=\E[19;6~,
	kf45=\E[20;6~,
	kf46=\E[21;6~,
	kf47=\E[23;6~,
	kf48=\E[24;6~,
	kf49=\E[1;3P,
	kf5=\E[15~,
	kf50=\E[1;3Q,
	kf51=\E[1;3R,
	kf52=\E[1;3S,
	kf53=\E[15;3~,
	kf54=\E[17;3~,
	kf55=\E[18;3~,
	kf56=\E[19;3~,
	kf57=\E[20;3~,
	kf58=\E[21;3~,
	kf59=\E[23;3~,
	kf6=\E[17~,
	kf60=\E[24;3~,
	kf61=\E[1;4P,
	kf62=\E[1;4Q,
	kf63=\E[1;4R,
	kf7=\E[18~,
	kf8=\E[19~,
	kf9=\E[20~,
	khome=\EOH,
	kich1=\E[2~,
	kind=\E[1;2B,
	kmous=\E[<,
	knp=\E[6~,
	kpp=\E[5~,
	kri=\E[1;2A,
	mc0=\E[i,
	mc4=\E[4i,
	mc5=\E[5i,
	meml=\El,
	memu=\Em,
	mgc=\E[?69l,
	nel=\EE,
	op=\E[39;49m,
	rc=\E8,
	rep=%p1%c\E[%p2%{1}%-%db,
	rev=\E[7m,
	ri=\EM,
	rin=\E[%p1%dT,
	ritm=\E[23m,
	rmacs=\E(B,
	rmam=\E[?7l,
	rmcup=\E[?1049l\E[23;0;0t,
	rmir=\E[4l,
	rmkx=\E[?1l\E>,
	rmm=\E[?1034l,
	rmso=\E[27m,
	rmul=\E[24m,
	rs1=\Ec,
	rs2=\E[!p\E[?3;4l\E[4l\E>,
	sc=\E7,
	setab=\E[4%p1%dm,
	setaf=\E[3%p1%dm,
	setb=\E[4%?%p1%{1}%=%t4%e%p1%{3}%=%t6%e%p1%{4}%=%t1%e%p1%{6}%=%t3%e%p1%d%;m,
	setf=\E[3%?%p1%{1}%=%t4%e%p1%{3}%=%t6%e%p1%{4}%=%t1%e%p1%{6}%=%t3%e%p1%d%;m,
	sgr=%?%p9%t\E(0%e\E(B%;\E[0%?%p6%t;1%;%?%p5%t;2%;%?%p2%t;4%;%?%p1%p3%|%t;7%;%?%p4%t;5%;%?%p7%t;8%;m,
	sgr0=\E(B\E[m,
	sitm=\E[3m,
	smacs=\E(0,
	smam=\E[?7h,
	smcup=\E[?1049h\E[22;0;0t,
	smglp=\E[?69h\E[%i%p1%ds,
	smglr=\E[?69h\E[%i%p1%d;%p2%ds,
	smgrp=\E[?69h\E[%i;%p1%ds,
	smir=\E[4h,
	smkx=\E[?1h\E=,
	smm=\E[?1034h,
	smso=\E[7m,
	smul=\E[4m,
	tbc=\E[3g,
	u6=\E[%i%d;%dR,
	u7=\E[6n,
	u8=\E[?%[;0123456789]c,
	u9=\E[c,
	vpa=\E[%i%p1%dd,
	BD=\E[?2004l,
	BE=\E[?2004h,
	Cr=\E]112\007,
	Cs=\E]12;%p1%s\007,
	E3=\E[3J,
	Ms=\E]52;%p1%s;%p2%s\007,
	PE=\E[201~,
	PS=\E[200~,
	Se=\E[2 q,
	Ss=\E[%p1%d q,
	XM=\E[?1006;1000%?%p1%{1}%=%th%el%;,
	kDC3=\E[3;3~,
	kDC4=\E[3;4~,
	kDC5=\E[3;5~,
	kDC6=\E[3;6~,
	kDC7=\E[3;7~,
	kDN=\E[1;2B,
	kDN3=\E[1;3B,
	kDN4=\E[1;4B,
	kDN5=\E[1;5B,
	kDN6=\E[1;6B,
	kDN7=\E[1;7B,
	kEND3=\E[1;3F,
	kEND4=\E[1;4F,
	kEND5=\E[1;5F,
	kEND6=\E[1;6F,
	kEND7=\E[1;7F,
	kHOM3=\E[1;3H,
	kHOM4=\E[1;4H,
	kHOM5=\E[1;5H,
	kHOM6=\E[1;6H,
	kHOM7=\E[1;7H,
	kIC3=\E[2;3~,
	kIC4=\E[2;4~,
	kIC5=\E[2;5~,
	kIC6=\E[2;6~,
	kIC7=\E[2;7~,
	kLFT3=\E[1;3D,
	kLFT4=\E[1;4D,
	kLFT5=\E[1;5D,
	kLFT6=\E[1;6D,
	kLFT7=\E[1;7D,
	kNXT3=\E[6;3~,
	kNXT4=\E[6;4~,
	kNXT5=\E[6;5~,
	kNXT6=\E[6;6~,
	kNXT7=\E[6;7~,
	kPRV3=\E[5;3~,
	kPRV4=\E[5;4~,
	kPRV5=\E[5;5~,
	kPRV6=\E[5;6~,
	kPRV7=\E[5;7~,
	kRIT3=\E[1;3C,
	kRIT4=\E[1;4C,
	kRIT5=\E[1;5C,
	kRIT6=\E[1;6C,
	kRIT7=\E[1;7C,
	kUP=\E[1;2A,
	kUP3=\E[1;3A,
	kUP4=\E[1;4A,
	kUP5=\E[1;5A,
	kUP6=\E[1;6A,
	kUP7=\E[1;7A,
	ka2=\EOx,
	kb1=\EOt,
	kb3=\EOv,
	kc2=\EOr,
	kp5=\EOE,
	kpADD=\EOk,
	kpCMA=\EOl,
	kpDIV=\EOo,
	kpDOT=\EOn,
	kpMUL=\EOj,
	kpSUB=\EOm,
	kpZRO=\EOp,
	rmxx=\E[29m,
	smxx=\E[9m,
	xm=\E[<%i%p3%d;%p1%d;%p2%d;%?%p4%tM%em%;,
"##;

#[test]
fn terminfo_source_matches_infocmp() {
    let t = xterm();
    assert_eq!(terminfo_source(&t, false), XTERM_SOURCE);
    assert_eq!(terminfo_source(&t, true), XTERM_SOURCE_X);
}

const XTERM_TERMCAP: &str = r##"xterm|xterm-debian|xterm terminal emulator (X Window System):\
	:am:bs:km:mi:ms:xn:\
	:co#80:it#8:li#24:\
	:AL=\E[%dL:DC=\E[%dP:DL=\E[%dM:DO=\E[%dB:IC=\E[%d@:\
	:K1=\EOw:K2=\EOu:K3=\EOy:K4=\EOq:K5=\EOs:LE=\E[%dD:\
	:RI=\E[%dC:SF=\E[%dS:SR=\E[%dT:UP=\E[%dA:ae=\E(B:al=\E[L:\
	:as=\E(0:bl=^G:bt=\E[Z:cd=\E[J:ce=\E[K:cl=\E[H\E[2J:\
	:cm=\E[%i%d;%dH:cr=\r:cs=\E[%i%d;%dr:ct=\E[3g:dc=\E[P:\
	:dl=\E[M:do=\n:ec=\E[%dX:ei=\E[4l:ho=\E[H:im=\E[4h:\
	:is=\E[!p\E[?3;4l\E[4l\E>:k1=\EOP:k2=\EOQ:k3=\EOR:\
	:k4=\EOS:k5=\E[15~:k6=\E[17~:k7=\E[18~:k8=\E[19~:\
	:k9=\E[20~:kD=\E[3~:kI=\E[2~:kN=\E[6~:kP=\E[5~:kb=\177:\
	:kd=\EOB:ke=\E[?1l\E>:kh=\EOH:kl=\EOD:kr=\EOC:\
	:ks=\E[?1h\E=:ku=\EOA:le=^H:mb=\E[5m:md=\E[1m:me=\E[0m:\
	:mh=\E[2m:mm=\E[?1034h:mo=\E[?1034l:mr=\E[7m:nd=\E[C:\
	:nw=\EE:rc=\E8:sc=\E7:se=\E[27m:sf=\n:so=\E[7m:sr=\EM:\
	:st=\EH:ta=^I:te=\E[?1049l\E[23;0;0t:\
	:ti=\E[?1049h\E[22;0;0t:ue=\E[24m:up=\E[A:us=\E[4m:\
	:vb=\E[?5h\E[?5l:ve=\E[?12l\E[?25h:vi=\E[?25l:\
	:vs=\E[?12;25h:
"##;

const LINUX: &[u8] = &[26, 1, 20, 0, 29, 0, 16, 0, 125, 1, 66, 3, 108, 105, 110, 117, 120, 124, 76, 105, 110, 117, 120, 32, 99, 111, 110, 115, 111, 108, 101, 0, 0, 1, 0, 0, 1, 1, 0, 0, 0, 0, 0, 0, 0, 1, 1, 0, 0, 0, 0, 0, 1, 0, 0, 0, 0, 0, 0, 1, 1, 0, 255, 255, 8, 0, 255, 255, 255, 255, 255, 255, 255, 255, 255, 255, 255, 255, 255, 255, 255, 255, 255, 255, 255, 255, 255, 255, 8, 0, 64, 0, 18, 0, 255, 255, 0, 0, 2, 0, 4, 0, 21, 0, 26, 0, 33, 0, 37, 0, 41, 0, 255, 255, 52, 0, 69, 0, 71, 0, 75, 0, 87, 0, 255, 255, 89, 0, 101, 0, 255, 255, 105, 0, 109, 0, 121, 0, 125, 0, 255, 255, 255, 255, 129, 0, 131, 0, 136, 0, 255, 255, 255, 255, 141, 0, 146, 0, 255, 255, 255, 255, 151, 0, 156, 0, 161, 0, 166, 0, 175, 0, 177, 0, 255, 255, 255, 255, 182, 0, 187, 0, 193, 0, 199, 0, 255, 255, 255, 255, 255, 255, 255, 255, 255, 255, 255, 255, 217, 0, 221, 0, 255, 255, 225, 0, 255, 255, 255, 255, 255, 255, 227, 0, 255, 255, 232, 0, 255, 255, 255, 255, 255, 255, 255, 255, 236, 0, 241, 0, 247, 0, 252, 0, 1, 1, 6, 1, 11, 1, 17, 1, 23, 1, 29, 1, 35, 1, 40, 1, 255, 255, 45, 1, 255, 255, 49, 1, 54, 1, 59, 1, 255, 255, 255, 255, 255, 255, 63, 1, 255, 255, 255, 255, 255, 255, 255, 255, 255, 255, 255, 255, 255, 255, 255, 255, 255, 255, 255, 255, 255, 255, 255, 255, 255, 255, 255, 255, 255, 255, 67, 1, 255, 255, 70, 1, 79, 1, 88, 1, 97, 1, 255, 255, 106, 1, 115, 1, 124, 1, 255, 255, 133, 1, 255, 255, 255, 255, 255, 255, 255, 255, 255, 255, 255, 255, 255, 255, 142, 1, 255, 255, 255, 255, 255, 255, 148, 1, 151, 1, 162, 1, 165, 1, 167, 1, 170, 1, 1, 2, 255, 255, 4, 2, 255, 255, 255, 255, 255, 255, 255, 255, 255, 255, 255, 255, 6, 2, 255, 255, 255, 255, 255, 255, 255, 255, 10, 2, 255, 255, 75, 2, 255, 255, 255, 255, 78, 2, 84, 2, 255, 255, 255, 255, 90, 2, 255, 255, 255, 255, 255, 255, 255, 255, 255, 255, 255, 255, 255, 255, 255, 255, 94, 2, 255, 255, 255, 255, 255, 255, 255, 255, 255, 255, 255, 255, 255, 255, 255, 255, 255, 255, 255, 255, 255, 255, 255, 255, 255, 255, 255, 255, 255, 255, 255, 255, 255, 255, 255, 255, 255, 255, 99, 2, 255, 255, 255, 255, 255, 255, 255, 255, 255, 255, 255, 255, 255, 255, 255, 255, 255, 255, 255, 255, 255, 255, 255, 255, 255, 255, 255, 255, 255, 255, 255, 255, 255, 255, 255, 255, 255, 255, 255, 255, 255, 255, 255, 255, 255, 255, 255, 255, 255, 255, 255, 255, 255, 255, 255, 255, 255, 255, 255, 255, 255, 255, 101, 2, 107, 2, 113, 2, 119, 2, 125, 2, 131, 2, 137, 2, 143, 2, 149, 2, 155, 2, 255, 255, 255, 255, 255, 255, 255, 255, 255, 255, 255, 255, 255, 255, 255, 255, 255, 255, 255, 255, 255, 255, 255, 255, 255, 255, 255, 255, 255, 255, 255, 255, 255, 255, 255, 255, 255, 255, 255, 255, 255, 255, 255, 255, 255, 255, 255, 255, 255, 255, 255, 255, 255, 255, 255, 255, 255, 255, 255, 255, 255, 255, 255, 255, 255, 255, 255, 255, 255, 255, 255, 255, 255, 255, 255, 255, 255, 255, 255, 255, 255, 255, 255, 255, 255, 255, 161, 2, 255, 255, 255, 255, 255, 255, 255, 255, 255, 255, 255, 255, 255, 255, 255, 255, 255, 255, 255, 255, 255, 255, 255, 255, 255, 255, 255, 255, 255, 255, 255, 255, 255, 255, 255, 255, 255, 255, 255, 255, 255, 255, 255, 255, 255, 255, 166, 2, 177, 2, 182, 2, 188, 2, 192, 2, 201, 2, 205, 2, 255, 255, 255, 255, 255, 255, 255, 255, 255, 255, 255, 255, 255, 255, 255, 255, 255, 255, 255, 255, 255, 255, 255, 255, 255, 255, 255, 255, 255, 255, 255, 255, 255, 255, 255, 255, 255, 255, 255, 255, 255, 255, 255, 255, 255, 255, 255, 255, 255, 255, 255, 255, 255, 255, 255, 255, 255, 255, 255, 255, 255, 255, 255, 255, 255, 255, 255, 255, 255, 255, 255, 255, 255, 255, 255, 255, 255, 255, 255, 255, 255, 255, 255, 255, 255, 255, 255, 255, 255, 255, 255, 255, 255, 255, 255, 255, 255, 255, 255, 255, 255, 255, 255, 255, 255, 255, 255, 255, 255, 255, 30, 3, 255, 255, 255, 255, 255, 255, 34, 3, 44, 3, 255, 255, 255, 255, 255, 255, 255, 255, 255, 255, 255, 255, 255, 255, 255, 255, 255, 255, 255, 255, 255, 255, 255, 255, 255, 255, 255, 255, 255, 255, 255, 255, 255, 255, 255, 255, 54, 3, 60, 3, 7, 0, 13, 0, 27, 91, 37, 105, 37, 112, 49, 37, 100, 59, 37, 112, 50, 37, 100, 114, 0, 27, 91, 51, 103, 0, 27, 91, 72, 27, 91, 74, 0, 27, 91, 75, 0, 27, 91, 74, 0, 27, 91, 37, 105, 37, 112, 49, 37, 100, 71, 0, 27, 91, 37, 105, 37, 112, 49, 37, 100, 59, 37, 112, 50, 37, 100, 72, 0, 10, 0, 27, 91, 72, 0, 27, 91, 63, 50, 53, 108, 27, 91, 63, 49, 99, 0, 8, 0, 27, 91, 63, 50, 53, 104, 27, 91, 63, 48, 99, 0, 27, 91, 67, 0, 27, 91, 65, 0, 27, 91, 63, 50, 53, 104, 27, 91, 63, 56, 99, 0, 27, 91, 80, 0, 27, 91, 77, 0, 14, 0, 27, 91, 53, 109, 0, 27, 91, 49, 109, 0, 27, 91, 50, 109, 0, 27, 91, 52, 104, 0, 27, 91, 55, 109, 0, 27, 91, 55, 109, 0, 27, 91, 52, 109, 0, 27, 91, 37, 112, 49, 37, 100, 88, 0, 15, 0, 27, 91, 109, 15, 0, 27, 91, 52, 108, 0, 27, 91, 50, 55, 109, 0, 27, 91, 50, 52, 109, 0, 27, 91, 63, 53, 104, 36, 60, 50, 48, 48, 47, 62, 27, 91, 63, 53, 108, 0, 27, 91, 64, 0, 27, 91, 76, 0, 127, 0, 27, 91, 51, 126, 0, 27, 91, 66, 0, 27, 91, 91, 65, 0, 27, 91, 50, 49, 126, 0, 27, 91, 91, 66, 0, 27, 91, 91, 67, 0, 27, 91, 91, 68, 0, 27, 91, 91, 69, 0, 27, 91, 49, 55, 126, 0, 27, 91, 49, 56, 126, 0, 27, 91, 49, 57, 126, 0, 27, 91, 50, 48, 126, 0, 27, 91, 49, 126, 0, 27, 91, 50, 126, 0, 27, 91, 68, 0, 27, 91, 54, 126, 0, 27, 91, 53, 126, 0, 27, 91, 67, 0, 27, 91, 65, 0, 13, 10, 0, 27, 91, 37, 112, 49, 37, 100, 80, 0, 27, 91, 37, 112, 49, 37, 100, 77, 0, 27, 91, 37, 112, 49, 37, 100, 66, 0, 27, 91, 37, 112, 49, 37, 100, 64, 0, 27, 91, 37, 112, 49, 37, 100, 76, 0, 27, 91, 37, 112, 49, 37, 100, 68, 0, 27, 91, 37, 112, 49, 37, 100, 67, 0, 27, 91, 37, 112, 49, 37, 100, 65, 0, 27, 99, 27, 93, 82, 0, 27, 56, 0, 27, 91, 37, 105, 37, 112, 49, 37, 100, 100, 0, 27, 55, 0, 10, 0, 27, 77, 0, 27, 91, 48, 59, 49, 48, 37, 63, 37, 112, 49, 37, 116, 59, 55, 37, 59, 37, 63, 37, 112, 50, 37, 116, 59, 52, 37, 59, 37, 63, 37, 112, 51, 37, 116, 59, 55, 37, 59, 37, 63, 37, 112, 52, 37, 116, 59, 53, 37, 59, 37, 63, 37, 112, 53, 37, 116, 59, 50, 37, 59, 37, 63, 37, 112, 54, 37, 116, 59, 49, 37, 59, 109, 37, 63, 37, 112, 57, 37, 116, 14, 37, 101, 15, 37, 59, 0, 27, 72, 0, 9, 0, 27, 91, 71, 0, 43, 43, 44, 44, 45, 45, 46, 46, 48, 48, 96, 96, 97, 97, 102, 102, 103, 103, 104, 104, 105, 105, 106, 106, 107, 107, 108, 108, 109, 109, 110, 110, 111, 111, 112, 112, 113, 113, 114, 114, 115, 115, 116, 116, 117, 117, 118, 118, 119, 119, 120, 120, 121, 121, 122, 122, 123, 123, 124, 124, 125, 125, 126, 126, 0, 27, 9, 0, 27, 91, 63, 55, 104, 0, 27, 91, 63, 55, 108, 0, 27, 41, 48, 0, 27, 91, 52, 126, 0, 26, 0, 27, 91, 50, 51, 126, 0, 27, 91, 50, 52, 126, 0, 27, 91, 50, 53, 126, 0, 27, 91, 50, 54, 126, 0, 27, 91, 50, 56, 126, 0, 27, 91, 50, 57, 126, 0, 27, 91, 51, 49, 126, 0, 27, 91, 51, 50, 126, 0, 27, 91, 51, 51, 126, 0, 27, 91, 51, 52, 126, 0, 27, 91, 49, 75, 0, 27, 91, 37, 105, 37, 100, 59, 37, 100, 82, 0, 27, 91, 54, 110, 0, 27, 91, 63, 54, 99, 0, 27, 91, 99, 0, 27, 91, 51, 57, 59, 52, 57, 109, 0, 27, 93, 82, 0, 27, 93, 80, 37, 112, 49, 37, 120, 37, 112, 50, 37, 123, 50, 53, 53, 125, 37, 42, 37, 123, 49, 48, 48, 48, 125, 37, 47, 37, 48, 50, 120, 37, 112, 51, 37, 123, 50, 53, 53, 125, 37, 42, 37, 123, 49, 48, 48, 48, 125, 37, 47, 37, 48, 50, 120, 37, 112, 52, 37, 123, 50, 53, 53, 125, 37, 42, 37, 123, 49, 48, 48, 48, 125, 37, 47, 37, 48, 50, 120, 0, 27, 91, 77, 0, 27, 91, 51, 37, 112, 49, 37, 100, 109, 0, 27, 91, 52, 37, 112, 49, 37, 100, 109, 0, 27, 91, 49, 49, 109, 0, 27, 91, 49, 48, 109, 0, 1, 0, 1, 0, 2, 0, 6, 0, 24, 0, 1, 0, 1, 0, 0, 0, 5, 0, 0, 0, 3, 0, 6, 0, 9, 0, 27, 91, 51, 74, 0, 27, 91, 90, 0, 65, 88, 0, 85, 56, 0, 69, 51, 0, 107, 99, 98, 116, 50, 0];

const LINUX_TERMCAP: &str = r##"linux|Linux console:\
	:am:eo:mi:ms:xn:xo:\
	:it#8:\
	:AL=\E[%dL:DC=\E[%dP:DL=\E[%dM:DO=\E[%dB:IC=\E[%d@:\
	:K2=\E[G:LE=\E[%dD:RI=\E[%dC:UP=\E[%dA:ae=^O:al=\E[L:as=^N:\
	:bl=^G:cd=\E[J:ce=\E[K:cl=\E[H\E[J:cm=\E[%i%d;%dH:cr=\r:\
	:cs=\E[%i%d;%dr:ct=\E[3g:dc=\E[P:dl=\E[M:do=\n:ec=\E[%dX:\
	:ei=\E[4l:ho=\E[H:ic=\E[@:im=\E[4h:k1=\E[[A:k2=\E[[B:\
	:k3=\E[[C:k4=\E[[D:k5=\E[[E:k6=\E[17~:k7=\E[18~:k8=\E[19~:\
	:k9=\E[20~:kD=\E[3~:kI=\E[2~:kN=\E[6~:kP=\E[5~:kb=\177:\
	:kd=\E[B:kh=\E[1~:kl=\E[D:kr=\E[C:ku=\E[A:le=^H:mb=\E[5m:\
	:md=\E[1m:me=\E[m\017:mh=\E[2m:mr=\E[7m:nd=\E[C:nw=\r\n:\
	:rc=\E8:\
	:..sa=\E[0;10%?%p1%t;7%;%?%p2%t;4%;%?%p3%t;7%;%?%p4%t;5%;%?%p5%t;2%;%?%p6%t;1%;m%?%p9%t\016%e\017%;:\
	:sc=\E7:se=\E[27m:sf=\n:so=\E[7m:sr=\EM:st=\EH:ta=^I:\
	:ue=\E[24m:up=\E[A:us=\E[4m:vb=\E[?5h\E[?5l:\
	:ve=\E[?25h\E[?0c:vi=\E[?25l\E[?1c:vs=\E[?25h\E[?8c:
"##;

/// The fields of a termcap entry in order, line wrapping removed (the 60-column wrapping here
/// counts bytes, which places some breaks differently from the system `infocmp`).
fn unwrapped(s: &str) -> String {
    s.replace("\\\n\t:", "")
}

#[test]
fn to_termcap_fields_match_infocmp_c() {
    assert_eq!(unwrapped(&to_termcap(&xterm())), unwrapped(XTERM_TERMCAP));
    let linux = Terminfo::parse(LINUX).expect("parse linux terminfo");
    assert_eq!(unwrapped(&to_termcap(&linux)), unwrapped(LINUX_TERMCAP));
}

#[test]
fn to_termcap_wraps_at_sixty_bytes() {
    let out = to_termcap(&xterm());
    let lines: Vec<&str> = out.split("\\\n").collect();
    assert_eq!(lines[0], "xterm|xterm-debian|xterm terminal emulator (X Window System):");
    assert_eq!(lines[1], "\t:am:bs:km:mi:ms:xn:");
    assert_eq!(lines[2], "\t:co#80:it#8:li#24:");
    assert_eq!(lines[3], "\t:AL=\\E[%dL:DC=\\E[%dP:DL=\\E[%dM:DO=\\E[%dB:IC=\\E[%d@:K1=\\EOw:");
    for l in &lines[1..] {
        let body = l.trim_end_matches('\n');
        assert!(body.len() <= 60 || body.matches(':').count() == 2);
    }
}

#[test]
fn search_dirs_includes_system_default() {
    let dirs = search_dirs_from(None, None, None);
    assert!(dirs.iter().any(|d| d.ends_with("usr/share/terminfo")));
}

#[test]
fn search_dirs_precedence_and_dedup() {
    let dirs = search_dirs_from(
        Some("/opt/ti".to_string()),
        Some("/x::/opt/ti/".to_string()),
        Some("/home/u".to_string()),
    );
    assert_eq!(
        dirs,
        vec!["/opt/ti", "/x", "/etc/terminfo", "/lib/terminfo", "/usr/share/terminfo", "/home/u/.terminfo"]
    );
    assert_eq!(search_dirs_from(Some(String::new()), None, None)[0], "/etc/terminfo");
}
