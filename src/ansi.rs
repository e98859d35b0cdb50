//! Escape-sequence constants and text attributes with an embedded link id.
use vstd::prelude::*;

verus! {

/// Reset all attributes.
pub const RESET: &'static str = "\x1b[0m";
/// Clear the screen.
pub const CLEAR: &'static str = "\x1b[2J";
/// Cursor home.
pub const HOME: &'static str = "\x1b[H";
/// Cursor home, then clear the screen.
pub const CLEAR_AND_HOME: &'static str = "\x1b[H\x1b[2J";
pub const HIDE_CURSOR: &'static str = "\x1b[?25l";
pub const SHOW_CURSOR: &'static str = "\x1b[?25h";
pub const DEFAULT_CURSOR_STYLE: &'static str = "\x1b[0 q";
pub const CURSOR_BLOCK: &'static str = "\x1b[2 q";
pub const CURSOR_BLOCK_BLINK: &'static str = "\x1b[1 q";
pub const CURSOR_LINE: &'static str = "\x1b[6 q";
pub const CURSOR_LINE_BLINK: &'static str = "\x1b[5 q";
pub const CURSOR_UNDERLINE: &'static str = "\x1b[4 q";
pub const CURSOR_UNDERLINE_BLINK: &'static str = "\x1b[3 q";
pub const BOLD: &'static str = "\x1b[1m";
pub const DIM: &'static str = "\x1b[2m";
pub const ITALIC: &'static str = "\x1b[3m";
pub const UNDERLINE: &'static str = "\x1b[4m";
pub const BLINK: &'static str = "\x1b[5m";
pub const INVERSE: &'static str = "\x1b[7m";
pub const HIDDEN: &'static str = "\x1b[8m";
pub const STRIKETHROUGH: &'static str = "\x1b[9m";
/// Ask for the terminal's name and version.
pub const XTVERSION: &'static str = "\x1b[>0q";
/// Ask for the keyboard protocol flags.
pub const CSI_U_QUERY: &'static str = "\x1b[?u";
/// Start of a tmux passthrough.
pub const TMUX_DCS_START: &'static str = "\x1bPtmux;";
/// End of a tmux passthrough.
pub const TMUX_DCS_END: &'static str = "\x1b\\";

/// Base attribute flags, in the low 8 bits of an attribute value.
pub const ATTR_NONE: u8 = 0;
pub const ATTR_BOLD: u8 = 1;
pub const ATTR_DIM: u8 = 2;
pub const ATTR_ITALIC: u8 = 4;
pub const ATTR_UNDERLINE: u8 = 8;
pub const ATTR_BLINK: u8 = 16;
pub const ATTR_INVERSE: u8 = 32;
pub const ATTR_HIDDEN: u8 = 64;
pub const ATTR_STRIKETHROUGH: u8 = 128;

/// A link id is 24 bits wide and sits above the 8 base bits.
pub const LINK_ID_LIMIT: u32 = 16777216;

/// The base attribute flags of `attr`.
pub fn get_base_attributes(attr: u32) -> (r: u8)
    ensures
        r == attr % 256,
{
    let r = attr & 0xFF;
    assert(attr & 0xFF == attr % 256) by (bit_vector);
    r as u8
}

/// The link id carried in `attr`.
pub fn get_link_id_from_attributes(attr: u32) -> (r: u32)
    ensures
        r == attr / 256,
{
    let r = (attr & 0xFFFF_FF00) >> 8;
    assert((attr & 0xFFFF_FF00) >> 8 == attr / 256) by (bit_vector);
    r
}

/// Whether `attr` carries a link id other than 0.
pub fn has_link(attr: u32) -> (r: bool)
    ensures
        r == (attr / 256 != 0),
{
    get_link_id_from_attributes(attr) != 0
}

/// The base flags of `base_attributes` with the low 24 bits of `link_id` as link id.
pub fn attributes_with_link(base_attributes: u32, link_id: u32) -> (r: u32)
    ensures
        r == base_attributes % 256 + (link_id % LINK_ID_LIMIT) * 256,
{
    let r = (base_attributes & 0xFF) | ((link_id & 0xFF_FFFF) << 8);
    assert((base_attributes & 0xFF) | ((link_id & 0xFF_FFFF) << 8) == base_attributes % 256 + (
    link_id % 16777216) * 256) by (bit_vector);
    r
}

/// Packing a link id into attributes and reading it back gives the id's low 24 bits, and
/// leaves the base flags as they were.
pub proof fn lemma_link_round_trip(base: u32, link: u32)
    ensures
        (base % 256 + (link % LINK_ID_LIMIT) * 256) / 256 == link % LINK_ID_LIMIT,
        (base % 256 + (link % LINK_ID_LIMIT) * 256) % 256 == base % 256,
{
    assert((base % 256 + (link % 16777216) * 256) / 256 == link % 16777216) by (nonlinear_arith);
    assert((base % 256 + (link % 16777216) * 256) % 256 == base % 256) by (nonlinear_arith);
}

} // verus!
