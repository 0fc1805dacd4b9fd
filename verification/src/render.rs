//! Render strategies: per-pixel rules that turn a luminance bitmap into a
//! terminal-friendly encoding.
//!
//! Each strategy maps one pixel at a time from the sample at that pixel and
//! its four neighbors (taken as zero beyond the bitmap's edge): the mono
//! strategy to a boolean mask for point plotting, the character-ramp
//! strategies to a character picked by linear luminance bucketing, and the
//! moon strategy to one of a small table of phase-glyph pairs oriented by
//! the horizontal gradient.

use crate::grid::Grid;
use crate::rasterizer::Bitmap;
use vstd::prelude::*;

verus! {

/// The fixed, ordered set of visual styles a glyph can be drawn in.
#[derive(Clone, Copy, PartialEq, Eq, Structural, Debug, Hash)]
pub enum RenderType {
    AsciiLevel10,
    AsciiLevel70,
    Moon,
    Mono,
}

/// The two character-ramp lengths on offer.
#[derive(Clone, Copy, PartialEq, Eq, Structural, Debug)]
pub enum AsciiRenders {
    Level10,
    Level70,
}

/// The style after `rt` in the fixed cycle.
pub open spec fn next_style(rt: RenderType) -> RenderType {
    match rt {
        RenderType::AsciiLevel10 => RenderType::AsciiLevel70,
        RenderType::AsciiLevel70 => RenderType::Moon,
        RenderType::Moon => RenderType::Mono,
        RenderType::Mono => RenderType::AsciiLevel10,
    }
}

/// The style before `rt` in the fixed cycle.
pub open spec fn prev_style(rt: RenderType) -> RenderType {
    match rt {
        RenderType::AsciiLevel10 => RenderType::Mono,
        RenderType::AsciiLevel70 => RenderType::AsciiLevel10,
        RenderType::Moon => RenderType::AsciiLevel70,
        RenderType::Mono => RenderType::Moon,
    }
}

/// Law: stepping forward and back through the style cycle are inverse, and
/// four forward steps return to the start.
pub proof fn lemma_style_cycle(rt: RenderType)
    ensures
        prev_style(next_style(rt)) == rt,
        next_style(prev_style(rt)) == rt,
        next_style(next_style(next_style(next_style(rt)))) == rt,
{
}

/// The sample above `(r, c)`, zero at the edge.
pub open spec fn up_of(bm: Bitmap, r: int, c: int) -> u8 {
    if r > 0 {
        bm.spec_pixel(r - 1, c)
    } else {
        0
    }
}

/// The sample left of `(r, c)`, zero at the edge.
pub open spec fn left_of(bm: Bitmap, r: int, c: int) -> u8 {
    if c > 0 {
        bm.spec_pixel(r, c - 1)
    } else {
        0
    }
}

/// The sample right of `(r, c)`, zero at the edge.
pub open spec fn right_of(bm: Bitmap, r: int, c: int) -> u8 {
    if c < bm.spec_width() - 1 {
        bm.spec_pixel(r, c + 1)
    } else {
        0
    }
}

/// The sample below `(r, c)`, zero at the edge.
pub open spec fn down_of(bm: Bitmap, r: int, c: int) -> u8 {
    if r < bm.spec_height() - 1 {
        bm.spec_pixel(r + 1, c)
    } else {
        0
    }
}

/// The mono rule: a pixel is set exactly when its luminance is full.
pub open spec fn spec_mono_pixel(gray: u8) -> bool {
    gray == 255
}

/// Linear luminance bucketing: luminance `gray` falls in bucket
/// `gray * levels / 256`.
pub open spec fn bucket(gray: u8, levels: int) -> int {
    gray * levels / 256
}

/// Law: bucketing never decreases when the luminance increases.
pub proof fn lemma_bucket_monotonic(g1: u8, g2: u8, levels: int)
    requires
        g1 <= g2,
        levels >= 1,
    ensures
        bucket(g1, levels) <= bucket(g2, levels),
{
    vstd::arithmetic::mul::lemma_mul_inequality(g1 as int, g2 as int, levels);
    vstd::arithmetic::div_mod::lemma_div_is_ordered(g1 * levels, g2 * levels, 256);
}

/// Every bucket index lies inside the ramp.
pub proof fn lemma_bucket_in_range(gray: u8, levels: int)
    requires
        levels >= 1,
    ensures
        0 <= bucket(gray, levels) < levels,
{
    vstd::arithmetic::mul::lemma_mul_inequality(gray as int, 255, levels);
    assert(gray * levels < 256 * levels);
    vstd::arithmetic::div_mod::lemma_multiply_divide_lt(gray * levels, 256, levels);
    assert(gray * levels >= 0) by (nonlinear_arith)
        requires
            gray >= 0,
            levels >= 1,
    ;
    vstd::arithmetic::div_mod::lemma_div_is_ordered(0, gray * levels, 256);
}

/// The ten-level character ramp, darkest last.
pub open spec fn level10_ramp() -> Seq<char> {
    " .:-=+*#%@"@
}

/// The seventy-level character ramp, darkest last.
pub open spec fn level70_ramp() -> Seq<char> {
    " .'`^\",:;Il!i><~+_-?][}{1)(|\\/tfjrxnuvczXYUJCLQ0OZmwqpdbkhao*#MW&8%B@$"@
}

/// The character-ramp rule: bucket the luminance into the ramp.
pub open spec fn spec_ascii_pixel(ramp: Seq<char>, gray: u8) -> char {
    ramp[bucket(gray, ramp.len() as int)]
}

/// The mono render strategy.
#[derive(Default)]
pub struct MonoRender {}

impl MonoRender {
    pub fn render_pixel(&self, up: u8, left: u8, gray: u8, right: u8, down: u8) -> (p: bool)
        ensures
            p == spec_mono_pixel(gray),
    {
        gray == 255
    }

    /// Apply the mono rule to every pixel of the bitmap.
    pub fn render(&self, bm: &Bitmap) -> (g: Grid<bool>)
        requires
            bm.wf(),
        ensures
            g.wf(),
            g.spec_rows() == bm.spec_height(),
            g.spec_cols() == bm.spec_width(),
            forall|r: int, c: int|
                0 <= r < bm.spec_height() && 0 <= c < bm.spec_width() ==> g.spec_at(r, c)
                    == spec_mono_pixel(bm.spec_pixel(r, c)),
    {
        let h: usize = bm.metrics().height;
        let w: usize = bm.metrics().width;
        proof {
            bm.pixels.lemma_wf_bound();
        }
        let mut g: Grid<bool> = Grid::new_filled(h, w, false);
        let mut r: usize = 0;
        while r < h
            invariant
                bm.wf(),
                h == bm.spec_height(),
                w == bm.spec_width(),
                r <= h,
                g.wf(),
                g.spec_rows() == h,
                g.spec_cols() == w,
                forall|i: int, j: int|
                    0 <= i < r && 0 <= j < w ==> g.spec_at(i, j) == spec_mono_pixel(
                        bm.spec_pixel(i, j),
                    ),
            decreases h - r,
        {
            let mut c: usize = 0;
            while c < w
                invariant
                    bm.wf(),
                    h == bm.spec_height(),
                    w == bm.spec_width(),
                    r < h,
                    c <= w,
                    g.wf(),
                    g.spec_rows() == h,
                    g.spec_cols() == w,
                    forall|i: int, j: int|
                        0 <= i < r && 0 <= j < w ==> g.spec_at(i, j) == spec_mono_pixel(
                            bm.spec_pixel(i, j),
                        ),
                    forall|j: int|
                        0 <= j < c ==> g.spec_at(r as int, j) == spec_mono_pixel(
                            bm.spec_pixel(r as int, j),
                        ),
                decreases w - c,
            {
                let (up, left, right, down) = neighbor_samples(bm, r, c);
                let p = self.render_pixel(up, left, bm.pixel(r, c), right, down);
                g.set(r, c, p);
                c = c + 1;
            }
            r = r + 1;
        }
        g
    }
}

/// The four neighbor samples around `(r, c)`, zero beyond the edge.
fn neighbor_samples(bm: &Bitmap, r: usize, c: usize) -> (s: (u8, u8, u8, u8))
    requires
        bm.wf(),
        r < bm.spec_height(),
        c < bm.spec_width(),
    ensures
        s.0 == up_of(*bm, r as int, c as int),
        s.1 == left_of(*bm, r as int, c as int),
        s.2 == right_of(*bm, r as int, c as int),
        s.3 == down_of(*bm, r as int, c as int),
{
    let h: usize = bm.metrics().height;
    let w: usize = bm.metrics().width;
    let up: u8 = if r > 0 {
        bm.pixel(r - 1, c)
    } else {
        0
    };
    let left: u8 = if c > 0 {
        bm.pixel(r, c - 1)
    } else {
        0
    };
    let right: u8 = if c < w - 1 {
        bm.pixel(r, c + 1)
    } else {
        0
    };
    let down: u8 = if r < h - 1 {
        bm.pixel(r + 1, c)
    } else {
        0
    };
    (up, left, right, down)
}

/// A character-ramp render strategy.
pub struct AsciiRender {
    pub ramp: Vec<char>,
}

impl AsciiRender {
    /// A usable ramp: non-empty and small enough that bucketing arithmetic
    /// stays within machine bounds.
    pub open spec fn wf(self) -> bool {
        1 <= self.ramp@.len() <= 0xffff
    }

    /// Build the strategy for the chosen ramp.
    pub fn new(render_type: AsciiRenders) -> (a: AsciiRender)
        ensures
            a.wf(),
            a.ramp@ == match render_type {
                AsciiRenders::Level10 => level10_ramp(),
                AsciiRenders::Level70 => level70_ramp(),
            },
    {
        let s: &str = match render_type {
            AsciiRenders::Level10 => " .:-=+*#%@",
            AsciiRenders::Level70 => " .'`^\",:;Il!i><~+_-?][}{1)(|\\/tfjrxnuvczXYUJCLQ0OZmwqpdbkhao*#MW&8%B@$",
        };
        proof {
            reveal_strlit(" .:-=+*#%@");
            reveal_strlit(
                " .'`^\",:;Il!i><~+_-?][}{1)(|\\/tfjrxnuvczXYUJCLQ0OZmwqpdbkhao*#MW&8%B@$",
            );
        }
        let n: usize = s.unicode_len();
        let mut ramp: Vec<char> = Vec::new();
        let mut i: usize = 0;
        while i < n
            invariant
                n == s@.len(),
                i <= n,
                ramp@ == s@.subrange(0, i as int),
            decreases n - i,
        {
            ramp.push(s.get_char(i));
            proof {
                assert(ramp@ =~= s@.subrange(0, i + 1));
            }
            i = i + 1;
        }
        proof {
            assert(ramp@ =~= s@);
        }
        AsciiRender { ramp }
    }

    pub fn render_pixel(&self, up: u8, left: u8, gray: u8, right: u8, down: u8) -> (p: char)
        requires
            self.wf(),
        ensures
            p == spec_ascii_pixel(self.ramp@, gray),
    {
        proof {
            lemma_bucket_in_range(gray, self.ramp@.len() as int);
        }
        let index: usize = gray as usize * self.ramp.len() / 256;
        self.ramp[index]
    }

    /// Apply the ramp rule to every pixel of the bitmap.
    pub fn render(&self, bm: &Bitmap) -> (g: Grid<char>)
        requires
            self.wf(),
            bm.wf(),
        ensures
            g.wf(),
            g.spec_rows() == bm.spec_height(),
            g.spec_cols() == bm.spec_width(),
            forall|r: int, c: int|
                0 <= r < bm.spec_height() && 0 <= c < bm.spec_width() ==> g.spec_at(r, c)
                    == spec_ascii_pixel(self.ramp@, bm.spec_pixel(r, c)),
    {
        let h: usize = bm.metrics().height;
        let w: usize = bm.metrics().width;
        proof {
            bm.pixels.lemma_wf_bound();
        }
        let mut g: Grid<char> = Grid::new_filled(h, w, ' ');
        let mut r: usize = 0;
        while r < h
            invariant
                self.wf(),
                bm.wf(),
                h == bm.spec_height(),
                w == bm.spec_width(),
                r <= h,
                g.wf(),
                g.spec_rows() == h,
                g.spec_cols() == w,
                forall|i: int, j: int|
                    0 <= i < r && 0 <= j < w ==> g.spec_at(i, j) == spec_ascii_pixel(
                        self.ramp@,
                        bm.spec_pixel(i, j),
                    ),
            decreases h - r,
        {
            let mut c: usize = 0;
            while c < w
                invariant
                    self.wf(),
                    bm.wf(),
                    h == bm.spec_height(),
                    w == bm.spec_width(),
                    r < h,
                    c <= w,
                    g.wf(),
                    g.spec_rows() == h,
                    g.spec_cols() == w,
                    forall|i: int, j: int|
                        0 <= i < r && 0 <= j < w ==> g.spec_at(i, j) == spec_ascii_pixel(
                            self.ramp@,
                            bm.spec_pixel(i, j),
                        ),
                    forall|j: int|
                        0 <= j < c ==> g.spec_at(r as int, j) == spec_ascii_pixel(
                            self.ramp@,
                            bm.spec_pixel(r as int, j),
                        ),
                decreases w - c,
            {
                let (up, left, right, down) = neighbor_samples(bm, r, c);
                let p = self.render_pixel(up, left, bm.pixel(r, c), right, down);
                g.set(r, c, p);
                c = c + 1;
            }
            r = r + 1;
        }
        g
    }
}


/// The moon-phase glyph for bucket `idx`: the left member of the pair for a
/// leftward or flat gradient, the right member for a rightward one.
pub open spec fn moon_char(idx: int, rightward: bool) -> char {
    if idx <= 0 {
        '\u{1F315}'
    } else if idx == 1 {
        if rightward {
            '\u{1F314}'
        } else {
            '\u{1F316}'
        }
    } else if idx == 2 {
        if rightward {
            '\u{1F313}'
        } else {
            '\u{1F317}'
        }
    } else if idx == 3 {
        if rightward {
            '\u{1F312}'
        } else {
            '\u{1F318}'
        }
    } else {
        '\u{1F311}'
    }
}

/// The moon rule: bucket the inverted luminance into the five phase pairs,
/// orienting each glyph by whether the left sample is darker than the right;
/// zero luminance always maps to the darkest pair's left member.
pub open spec fn spec_moon_pixel(left: u8, gray: u8, right: u8) -> char {
    if gray == 0 {
        moon_char(4, false)
    } else {
        moon_char(bucket((255 - gray) as u8, 5), left < right)
    }
}

/// The bichromatic moon-phase render strategy.
pub struct MoonRender {}

impl MoonRender {
    pub fn new() -> (m: MoonRender) {
        MoonRender {  }
    }

    fn moon_char_exec(&self, idx: usize, rightward: bool) -> (p: char)
        requires
            idx < 5,
        ensures
            p == moon_char(idx as int, rightward),
    {
        if idx == 0 {
            '\u{1F315}'
        } else if idx == 1 {
            if rightward {
                '\u{1F314}'
            } else {
                '\u{1F316}'
            }
        } else if idx == 2 {
            if rightward {
                '\u{1F313}'
            } else {
                '\u{1F317}'
            }
        } else if idx == 3 {
            if rightward {
                '\u{1F312}'
            } else {
                '\u{1F318}'
            }
        } else {
            '\u{1F311}'
        }
    }

    pub fn render_pixel(&self, up: u8, left: u8, gray: u8, right: u8, down: u8) -> (p: char)
        ensures
            p == spec_moon_pixel(left, gray, right),
    {
        if gray == 0 {
            return self.moon_char_exec(4, false);
        }
        let inverted: u8 = 255 - gray;
        proof {
            lemma_bucket_in_range(inverted, 5);
        }
        let index: usize = inverted as usize * 5 / 256;
        self.moon_char_exec(index, left < right)
    }

    /// Apply the moon rule to every pixel of the bitmap.
    pub fn render(&self, bm: &Bitmap) -> (g: Grid<char>)
        requires
            bm.wf(),
        ensures
            g.wf(),
            g.spec_rows() == bm.spec_height(),
            g.spec_cols() == bm.spec_width(),
            forall|r: int, c: int|
                0 <= r < bm.spec_height() && 0 <= c < bm.spec_width() ==> g.spec_at(r, c)
                    == spec_moon_pixel(
                    left_of(*bm, r, c),
                    bm.spec_pixel(r, c),
                    right_of(*bm, r, c),
                ),
    {
        let h: usize = bm.metrics().height;
        let w: usize = bm.metrics().width;
        proof {
            bm.pixels.lemma_wf_bound();
        }
        let mut g: Grid<char> = Grid::new_filled(h, w, ' ');
        let mut r: usize = 0;
        while r < h
            invariant
                bm.wf(),
                h == bm.spec_height(),
                w == bm.spec_width(),
                r <= h,
                g.wf(),
                g.spec_rows() == h,
                g.spec_cols() == w,
                forall|i: int, j: int|
                    0 <= i < r && 0 <= j < w ==> g.spec_at(i, j) == spec_moon_pixel(
                        left_of(*bm, i, j),
                        bm.spec_pixel(i, j),
                        right_of(*bm, i, j),
                    ),
            decreases h - r,
        {
            let mut c: usize = 0;
            while c < w
                invariant
                    bm.wf(),
                    h == bm.spec_height(),
                    w == bm.spec_width(),
                    r < h,
                    c <= w,
                    g.wf(),
                    g.spec_rows() == h,
                    g.spec_cols() == w,
                    forall|i: int, j: int|
                        0 <= i < r && 0 <= j < w ==> g.spec_at(i, j) == spec_moon_pixel(
                            left_of(*bm, i, j),
                            bm.spec_pixel(i, j),
                            right_of(*bm, i, j),
                        ),
                    forall|j: int|
                        0 <= j < c ==> g.spec_at(r as int, j) == spec_moon_pixel(
                            left_of(*bm, r as int, j),
                            bm.spec_pixel(r as int, j),
                            right_of(*bm, r as int, j),
                        ),
                decreases w - c,
            {
                let (up, left, right, down) = neighbor_samples(bm, r, c);
                let p = self.render_pixel(up, left, bm.pixel(r, c), right, down);
                g.set(r, c, p);
                c = c + 1;
            }
            r = r + 1;
        }
        g
    }
}

} // verus!
