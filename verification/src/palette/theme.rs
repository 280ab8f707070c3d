//! The palette's design tokens: colours as `0xRRGGBB` words (the hairline as
//! premultiplied `0xRRGGBBAA`), spacing, type sizes and radii in logical
//! pixels.

use vstd::prelude::*;

verus! {

/// Card background `#202020`.
pub const BG: u32 = 0x202020;
/// Selected row `#404040`.
pub const ROW_SELECTED: u32 = 0x404040;
/// Hovered row `#2E2E2E`.
pub const ROW_HOVERED: u32 = 0x2E2E2E;
/// Matched-keyword highlight `#FF6000` (only the colour changes, never size
/// or weight).
pub const ACCENT: u32 = 0xFF6000;
/// Error text `#E5484D`.
pub const ERROR: u32 = 0xE5484D;
/// Primary text `#FFFFFF`.
pub const TEXT: u32 = 0xFFFFFF;
/// Secondary text `#A8A8A8`.
pub const TEXT_DIM: u32 = 0xA8A8A8;
/// Input placeholder `#6E6E6E`.
pub const PLACEHOLDER: u32 = 0x6E6E6E;
/// 1px card border, premultiplied RGBA (alpha about 0.08).
pub const HAIRLINE_RGBA: u32 = 0x14141414;

/// Spacing scale.
pub const SP_XS: u32 = 4;
pub const SP_SM: u32 = 8;
pub const SP_MD: u32 = 12;
pub const SP_LG: u32 = 16;
pub const SP_XL: u32 = 24;
pub const SP_2XL: u32 = 48;
pub const SP_3XL: u32 = 64;

/// Type sizes: input, command name, description.
pub const FONT_SIZE_INPUT: u32 = 16;
pub const FONT_SIZE_NAME: u32 = 14;
pub const FONT_SIZE_DESC: u32 = 12;

/// Fixed panel width.
pub const PANEL_WIDTH: u32 = 600;

/// Corner radius of the card and of the input box and rows.
pub const RADIUS_CARD: u32 = 12;
pub const RADIUS_CONTROL: u32 = 8;

} // verus!
