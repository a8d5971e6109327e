//! Per-glyph metric values and the layout-time transformations on them.

use vstd::prelude::*;
use crate::ratio::Ratio;

verus! {

/// Measurements of one glyph: the glyph id, the character it was mapped
/// from, its advance width (an exact rational: plain font units until layout
/// scales it), its vertical extent in font units, and the kerning adjustment
/// owed to the right of this glyph (0 until layout resolves a pair).
#[derive(Clone, Copy, Debug, PartialEq, Eq, Structural)]
pub struct GlyphMetrics {
    pub id: u16,
    pub character: char,
    pub width: Ratio,
    pub height: i64,
    pub kern_right: i64,
}

impl GlyphMetrics {
    /// Fresh base metrics in font units, with no kerning yet.
    pub fn new(id: u16, width: i64, height: i64, character: char) -> (r: GlyphMetrics)
        ensures
            r.id == id,
            r.character == character,
            r.width.num == width as int,
            r.width.den == 1,
            r.height == height,
            r.kern_right == 0,
    {
        GlyphMetrics {
            id,
            character,
            width: Ratio::whole(width),
            height,
            kern_right: 0,
        }
    }

    /// Folds the pending right-kern into the advance width:
    /// `width += kern_right`.
    pub fn apply_kerning(&mut self)
        requires
            old(self).width.wf(),
            i128::MIN <= old(self).kern_right * old(self).width.den <= i128::MAX,
            i128::MIN <= old(self).width.num + old(self).kern_right * old(self).width.den
                <= i128::MAX,
        ensures
            final(self).id == old(self).id,
            final(self).character == old(self).character,
            final(self).height == old(self).height,
            final(self).kern_right == old(self).kern_right,
            final(self).width.den == old(self).width.den,
            final(self).width.num == old(self).width.num + old(self).kern_right * old(self).width.den,
    {
        self.width.num = self.width.num + (self.kern_right as i128) * (self.width.den as i128);
    }

    /// Multiplies the advance width by `scale`.
    pub fn apply_scale(&mut self, scale: Ratio)
        requires
            old(self).width.wf(),
            scale.wf(),
            i128::MIN <= old(self).width.num * scale.num <= i128::MAX,
            old(self).width.den * scale.den <= u64::MAX,
        ensures
            final(self).id == old(self).id,
            final(self).character == old(self).character,
            final(self).height == old(self).height,
            final(self).kern_right == old(self).kern_right,
            final(self).width.num == old(self).width.num * scale.num,
            final(self).width.den == old(self).width.den * scale.den,
            final(self).width.wf(),
    {
        proof {
            let a = self.width.den;
            let b = scale.den;
            assert(a * b >= 1) by (nonlinear_arith)
                requires
                    a >= 1,
                    b >= 1,
            ;
        }
        self.width.num = self.width.num * scale.num;
        self.width.den = self.width.den * scale.den;
    }
}

} // verus!
