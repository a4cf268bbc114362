use vstd::prelude::*;

verus! {

/// The red, green and blue components packed in a `0xRRGGBB` colour value.
pub open spec fn spec_rgb(color: u32) -> (u8, u8, u8) {
    (((color >> 16u32) & 0xFF) as u8, ((color >> 8u32) & 0xFF) as u8, (color & 0xFF) as u8)
}

/// Splits a `0xRRGGBB` colour into its components.
pub fn rgb(color: u32) -> (res: (u8, u8, u8))
    ensures
        res == spec_rgb(color),
{
    let r = ((color >> 16u32) & 0xFF) as u8;
    let g = ((color >> 8u32) & 0xFF) as u8;
    let b = (color & 0xFF) as u8;
    (r, g, b)
}

/// Packs three components into a `0xRRGGBB` colour.
pub fn from_rgb(r: u8, g: u8, b: u8) -> (res: u32)
    ensures
        res == r as u32 * 0x10000 + g as u32 * 0x100 + b as u32,
        spec_rgb(res) == (r, g, b),
{
    let res = ((r as u32) << 16u32) | ((g as u32) << 8u32) | (b as u32);
    assert(((r as u32) << 16u32) | ((g as u32) << 8u32) | (b as u32) == r as u32 * 0x10000 + g as u32 * 0x100 + b as u32
        && (((((r as u32) << 16u32) | ((g as u32) << 8u32) | (b as u32)) >> 16u32) & 0xFF) as u8 == r
        && (((((r as u32) << 16u32) | ((g as u32) << 8u32) | (b as u32)) >> 8u32) & 0xFF) as u8 == g
        && ((((r as u32) << 16u32) | ((g as u32) << 8u32) | (b as u32)) & 0xFF) as u8 == b) by (bit_vector);
    res
}

} // verus!
