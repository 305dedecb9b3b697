//! The bytes that the grammar names.

use vstd::prelude::*;

verus! {

/// Horizontal tab.
pub const TAB: u8 = 0x09;

/// Line feed.
pub const LINE_FEED: u8 = 0x0a;

/// Carriage return.
pub const CARRIAGE_RETURN: u8 = 0x0d;

/// Space.
pub const SPACE: u8 = 0x20;

/// `!`
pub const BANG: u8 = 0x21;

/// `"`
pub const QUOTE: u8 = 0x22;

/// `#`
pub const HASH: u8 = 0x23;

/// `$`
pub const DOLLAR: u8 = 0x24;

/// `%`, which opens the name of a local symbol
pub const LOCAL_SIGIL: u8 = 0x25;

/// `(`
pub const OPEN_PAREN: u8 = 0x28;

/// `)`
pub const CLOSE_PAREN: u8 = 0x29;

/// `*`
pub const STAR: u8 = 0x2a;

/// `,`
pub const COMMA: u8 = 0x2c;

/// `-`
pub const MINUS: u8 = 0x2d;

/// `.`
pub const DOT: u8 = 0x2e;

/// `0`
pub const DIGIT_0: u8 = 0x30;

/// `9`
pub const DIGIT_9: u8 = 0x39;

/// `;`
pub const SEMICOLON: u8 = 0x3b;

/// `<`
pub const LESS: u8 = 0x3c;

/// `=`
pub const EQUALS: u8 = 0x3d;

/// `>`
pub const GREATER: u8 = 0x3e;

/// `@`, which opens the name of a module-level symbol
pub const GLOBAL_SIGIL: u8 = 0x40;

/// `A`
pub const UPPER_A: u8 = 0x41;

/// `Z`
pub const UPPER_Z: u8 = 0x5a;

/// `[`
pub const OPEN_BRACKET: u8 = 0x5b;

/// `]`
pub const CLOSE_BRACKET: u8 = 0x5d;

/// `_`
pub const UNDERSCORE: u8 = 0x5f;

/// `a`
pub const LOWER_A: u8 = 0x61;

/// `c`
pub const LOWER_C: u8 = 0x63;

/// `d`
pub const LOWER_D: u8 = 0x64;

/// `f`
pub const LOWER_F: u8 = 0x66;

/// `g`
pub const LOWER_G: u8 = 0x67;

/// `i`
pub const LOWER_I: u8 = 0x69;

/// `s`
pub const LOWER_S: u8 = 0x73;

/// `t`
pub const LOWER_T: u8 = 0x74;

/// `z`
pub const LOWER_Z: u8 = 0x7a;

/// `{`
pub const OPEN_BRACE: u8 = 0x7b;

/// `}`
pub const CLOSE_BRACE: u8 = 0x7d;

} // verus!
