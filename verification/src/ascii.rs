//! The bytes that program text is written in, by name.
use vstd::prelude::*;

verus! {

/// Horizontal tab, the first of the five control bytes that count as white space.
pub const TAB: u8 = 9;

/// `\n`
pub const LINE_FEED: u8 = 10;

/// `\r`, the last of the five control bytes that count as white space.
pub const CARRIAGE_RETURN: u8 = 13;

/// ` `
pub const SPACE: u8 = 32;

/// `#`, which starts an immediate operand.
pub const HASH: u8 = 35;

/// `+`
pub const PLUS: u8 = 43;

/// `,`, which ends every register operand but the last.
pub const COMMA: u8 = 44;

/// `-`
pub const MINUS: u8 = 45;

/// `0`
pub const ZERO: u8 = 48;

/// `9`
pub const NINE: u8 = 57;

/// `:`, which ends a label declaration.
pub const COLON: u8 = 58;

pub const A: u8 = 65;

pub const B: u8 = 66;

pub const C: u8 = 67;

pub const D: u8 = 68;

pub const E: u8 = 69;

pub const G: u8 = 71;

pub const H: u8 = 72;

pub const L: u8 = 76;

pub const M: u8 = 77;

pub const N: u8 = 78;

pub const O: u8 = 79;

pub const P: u8 = 80;

pub const Q: u8 = 81;

pub const R: u8 = 82;

pub const S: u8 = 83;

pub const T: u8 = 84;

pub const U: u8 = 85;

pub const V: u8 = 86;

} // verus!
