//! The result of laying out one run of text.

use vstd::prelude::*;
use crate::glyphs::GlyphMetrics;
use crate::ratio::Ratio;

verus! {

/// A laid-out text run: the source text, the font name and size it was laid
/// out for, the per-glyph metrics with kerning and scaling applied, and the
/// line metrics for that size.  A value, immutable after construction.
#[derive(Clone, Debug, PartialEq)]
pub struct LayoutRun {
    pub text: String,
    pub font: String,
    pub font_size: u32,
    pub glyph_run: Vec<GlyphMetrics>,
    pub line_height: Ratio,
    pub line_gap: Ratio,
}

/// Reserved grouping of glyphs into words.
pub struct WordRun {}

/// Reserved grouping of words into lines.
pub struct LineRun {}

/// The sum of the glyphs' width numerators.
pub open spec fn spec_width_num_sum(s: Seq<GlyphMetrics>) -> int
    decreases s.len(),
{
    if s.len() == 0 {
        0
    } else {
        spec_width_num_sum(s.drop_last()) + s.last().width.num
    }
}

impl LayoutRun {
    /// Every glyph width shares the denominator of the first one (the shape
    /// `layout_run` produces: all widths are scaled the same way).
    pub open spec fn uniform_width_dens(self) -> bool {
        forall|i: int|
            0 <= i < self.glyph_run@.len() ==> (#[trigger] self.glyph_run@[i]).width.den
                == self.glyph_run@[0].width.den
    }

    /// Every glyph width numerator is small enough that any sum of them fits.
    pub open spec fn bounded_width_nums(self) -> bool {
        forall|i: int|
            0 <= i < self.glyph_run@.len() ==> -0x4000_0000_0000_0000
                <= (#[trigger] self.glyph_run@[i]).width.num <= 0x4000_0000_0000_0000
    }

    /// The total advance width of the run: the exact sum of the glyph
    /// widths.  An empty run has width 0.
    pub fn run_width(&self) -> (r: Ratio)
        requires
            self.uniform_width_dens(),
            self.bounded_width_nums(),
            self.glyph_run@.len() > 0 ==> self.glyph_run@[0].width.den > 0,
        ensures
            r.num == spec_width_num_sum(self.glyph_run@),
            r.den == if self.glyph_run@.len() > 0 {
                self.glyph_run@[0].width.den
            } else {
                1u64
            },
    {
        let n = self.glyph_run.len();
        let mut acc: i128 = 0;
        let mut den: u64 = 1;
        if n > 0 {
            den = self.glyph_run[0].width.den;
        }
        for i in 0..n
            invariant
                n == self.glyph_run@.len(),
                self.uniform_width_dens(),
                self.bounded_width_nums(),
                acc == spec_width_num_sum(self.glyph_run@.take(i as int)),
                -0x4000_0000_0000_0000 * (i as int) <= acc <= 0x4000_0000_0000_0000 * (i as int),
                den == if n > 0 {
                    self.glyph_run@[0].width.den
                } else {
                    1u64
                },
        {
            proof {
                assert(self.glyph_run@.take(i + 1).drop_last() =~= self.glyph_run@.take(i as int));
                assert(self.glyph_run@.take(i + 1).last() == self.glyph_run@[i as int]);
            }
            acc = acc + self.glyph_run[i].width.num;
        }
        proof {
            assert(self.glyph_run@.take(n as int) =~= self.glyph_run@);
        }
        Ratio { num: acc, den }
    }
}

} // verus!
