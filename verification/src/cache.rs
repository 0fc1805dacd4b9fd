//! The glyph render cache: keys, rendered values, and the memo map.
//!
//! A `CacheKey` identifies one render job — which face, which style, at
//! which canvas size. The cache maps keys to shared handles on the finished
//! render (or on the error message rasterization produced), so a redraw
//! with an unchanged key returns the stored handle instead of rendering
//! again. Entries are never invalidated: keys partition naturally by size
//! and style, so stale entries are simply never asked for.

use crate::grid::Grid;
use crate::render::RenderType;
use crate::text::push_char;
use std::rc::Rc;
use vstd::prelude::*;

verus! {

/// Identifies one memoized render: the face address in the filtered
/// catalog, the render style, and the canvas size in cells or pixels.
#[derive(Clone, Copy, PartialEq, Eq, Structural, Debug)]
pub struct CacheKey {
    /// The family's index in the catalog.
    pub family_index: usize,
    /// The face's index within that family.
    pub face_index: usize,
    pub rt: RenderType,
    pub width: u32,
    pub height: u32,
}

/// Text lines, one per bitmap row, for the character render styles.
pub struct GlyphParagraph {
    pub lines: Vec<String>,
}

/// Relies on `Rc::clone`: returns a handle to the same value.
#[verifier::external_body]
pub fn rc_clone<T>(v: &Rc<T>) -> (r: Rc<T>)
    ensures
        r == *v,
{
    Rc::clone(v)
}

impl GlyphParagraph {
    /// Flatten a character grid into one string per row.
    pub fn new(g: &Grid<char>) -> (p: GlyphParagraph)
        requires
            g.wf(),
        ensures
            p.lines@.len() == g.spec_rows(),
            forall|r: int|
                0 <= r < g.spec_rows() ==> p.lines@[r]@ == Seq::new(
                    g.spec_cols() as nat,
                    |c: int| g.spec_at(r, c),
                ),
    {
        let h: usize = g.rows();
        let w: usize = g.cols();
        let mut lines: Vec<String> = Vec::new();
        let mut r: usize = 0;
        while r < h
            invariant
                g.wf(),
                h == g.spec_rows(),
                w == g.spec_cols(),
                r <= h,
                lines@.len() == r,
                forall|i: int|
                    0 <= i < r ==> lines@[i]@ == Seq::new(
                        g.spec_cols() as nat,
                        |c: int| g.spec_at(i, c),
                    ),
            decreases h - r,
        {
            let mut line = String::new();
            let mut c: usize = 0;
            while c < w
                invariant
                    g.wf(),
                    h == g.spec_rows(),
                    w == g.spec_cols(),
                    r < h,
                    c <= w,
                    line@ == Seq::new(c as nat, |j: int| g.spec_at(r as int, j)),
                decreases w - c,
            {
                push_char(&mut line, *g.get(r, c));
                proof {
                    assert(line@ =~= Seq::new((c + 1) as nat, |j: int| g.spec_at(r as int, j)));
                }
                c = c + 1;
            }
            lines.push(line);
            r = r + 1;
        }
        GlyphParagraph { lines }
    }
}

/// A finished render: a boolean point-plot shape for the mono style, or
/// printable text lines for the character styles.
pub enum GlyphCache {
    Canvas(GlyphCanvasShape),
    Paragraph(GlyphParagraph),
}

/// The mono render placed on a canvas: the glyph's boolean grid plus the
/// padding that centers it, in the canvas's bottom-left coordinate system.
pub struct GlyphCanvasShape {
    pub h_pad: i64,
    pub v_pad: i64,
    pub canvas_height: i64,
    pub bitmap: Grid<bool>,
}

/// The padding that centers `content` cells inside `canvas` cells,
/// rounding down (negative when the content overflows the canvas).
pub open spec fn center_pad(canvas: int, content: int) -> int {
    (canvas - content) / 2
}

/// `center_pad` on machine integers.
fn center_pad_exec(canvas: u32, content: usize) -> (pad: i64)
    requires
        content <= u32::MAX,
    ensures
        pad == center_pad(canvas as int, content as int),
{
    if content <= canvas as usize {
        let diff: usize = canvas as usize - content;
        (diff / 2) as i64
    } else {
        let diff: usize = content - canvas as usize;
        let q: usize = diff / 2 + diff % 2;
        proof {
            let d = diff as int;
            vstd::arithmetic::div_mod::lemma_fundamental_div_mod(d, 2);
            vstd::arithmetic::div_mod::lemma_fundamental_div_mod_converse(
                0 - d,
                2,
                0 - (d / 2 + d % 2),
                d % 2,
            );
        }
        0 - (q as i64)
    }
}

impl GlyphCanvasShape {
    /// The bitmap and canvas dimensions stay within pixel-coordinate range.
    pub open spec fn wf(self) -> bool {
        &&& self.bitmap.wf()
        &&& self.bitmap.spec_rows() <= u32::MAX
        &&& self.bitmap.spec_cols() <= u32::MAX
        &&& 0 <= self.canvas_height <= u32::MAX
        &&& center_pad(0, u32::MAX as int) <= self.h_pad <= center_pad(u32::MAX as int, 0)
        &&& center_pad(0, u32::MAX as int) <= self.v_pad <= center_pad(u32::MAX as int, 0)
    }

    /// Center the rendered grid on a canvas of the given size.
    pub fn new(bitmap: Grid<bool>, canvas_width: u32, canvas_height: u32) -> (s: GlyphCanvasShape)
        requires
            bitmap.wf(),
            bitmap.spec_rows() <= u32::MAX,
            bitmap.spec_cols() <= u32::MAX,
        ensures
            s.wf(),
            s.bitmap == bitmap,
            s.canvas_height == canvas_height,
            s.h_pad == center_pad(canvas_width as int, bitmap.spec_cols()),
            s.v_pad == center_pad(canvas_height as int, bitmap.spec_rows()),
    {
        let cols: usize = bitmap.cols();
        let rows: usize = bitmap.rows();
        let h_pad: i64 = center_pad_exec(canvas_width, cols);
        let v_pad: i64 = center_pad_exec(canvas_height, rows);
        proof {
            lemma_center_pad_bounds(canvas_width as int, cols as int);
            lemma_center_pad_bounds(canvas_height as int, rows as int);
        }
        GlyphCanvasShape { h_pad, v_pad, canvas_height: canvas_height as i64, bitmap }
    }
}

/// The canvas coordinates of cell `(y, x)`: padded horizontally, and
/// flipped vertically because the canvas origin is at the bottom left
/// while the grid's is at the top left.
pub open spec fn spec_point(shape: GlyphCanvasShape, y: int, x: int) -> (i64, i64) {
    ((x + shape.h_pad) as i64, (shape.canvas_height - y - shape.v_pad) as i64)
}

/// The points of row `y` from column `x` on, one per set cell, in column
/// order.
pub open spec fn row_points(shape: GlyphCanvasShape, y: int, x: int) -> Seq<(i64, i64)>
    decreases shape.bitmap.spec_cols() - x,
{
    if x < 0 || x >= shape.bitmap.spec_cols() {
        Seq::empty()
    } else {
        let rest = row_points(shape, y, x + 1);
        if shape.bitmap.spec_at(y, x) {
            seq![spec_point(shape, y, x)] + rest
        } else {
            rest
        }
    }
}

/// The points of all rows from `y` down, in row-major order.
pub open spec fn points_from(shape: GlyphCanvasShape, y: int) -> Seq<(i64, i64)>
    decreases shape.bitmap.spec_rows() - y,
{
    if y < 0 || y >= shape.bitmap.spec_rows() {
        Seq::empty()
    } else {
        row_points(shape, y, 0) + points_from(shape, y + 1)
    }
}

/// Every point the shape plots, in row-major order of the set cells.
pub open spec fn spec_points(shape: GlyphCanvasShape) -> Seq<(i64, i64)> {
    points_from(shape, 0)
}

impl GlyphCanvasShape {
    /// Enumerate the canvas coordinates of every set cell.
    pub fn points(&self) -> (pts: Vec<(i64, i64)>)
        requires
            self.wf(),
        ensures
            pts@ == spec_points(*self),
    {
        let rows: usize = self.bitmap.rows();
        let cols: usize = self.bitmap.cols();
        let mut pts: Vec<(i64, i64)> = Vec::new();
        let mut y: usize = 0;
        while y < rows
            invariant
                self.wf(),
                rows == self.bitmap.spec_rows(),
                cols == self.bitmap.spec_cols(),
                y <= rows,
                spec_points(*self) == pts@ + points_from(*self, y as int),
            decreases rows - y,
        {
            let mut x: usize = 0;
            proof {
                assert(points_from(*self, y as int) == row_points(*self, y as int, 0)
                    + points_from(*self, y + 1));
                assert(pts@ + (row_points(*self, y as int, 0) + points_from(*self, y + 1)) =~= (
                pts@ + row_points(*self, y as int, 0)) + points_from(*self, y + 1));
            }
            while x < cols
                invariant
                    self.wf(),
                    rows == self.bitmap.spec_rows(),
                    cols == self.bitmap.spec_cols(),
                    y < rows,
                    x <= cols,
                    spec_points(*self) == (pts@ + row_points(*self, y as int, x as int))
                        + points_from(*self, y + 1),
                decreases cols - x,
            {
                let ghost before = pts@;
                if *self.bitmap.get(y, x) {
                    let px: i64 = x as i64 + self.h_pad;
                    let py: i64 = self.canvas_height - y as i64 - self.v_pad;
                    pts.push((px, py));
                    proof {
                        assert((px, py) == spec_point(*self, y as int, x as int));
                    }
                }
                proof {
                    assert(row_points(*self, y as int, x as int) == if self.bitmap.spec_at(
                        y as int,
                        x as int,
                    ) {
                        seq![spec_point(*self, y as int, x as int)] + row_points(
                            *self,
                            y as int,
                            x + 1,
                        )
                    } else {
                        row_points(*self, y as int, x + 1)
                    });
                    assert((pts@ + row_points(*self, y as int, x + 1)) =~= (before + row_points(
                        *self,
                        y as int,
                        x as int,
                    )));
                }
                x = x + 1;
            }
            proof {
                assert(row_points(*self, y as int, cols as int) =~= Seq::empty());
                assert(pts@ + row_points(*self, y as int, cols as int) =~= pts@);
            }
            y = y + 1;
        }
        proof {
            assert(points_from(*self, rows as int) =~= Seq::empty());
            assert(pts@ + points_from(*self, rows as int) =~= pts@);
        }
        pts
    }
}

/// Padding between in-range sizes stays between the two extreme paddings.
proof fn lemma_center_pad_bounds(canvas: int, content: int)
    requires
        0 <= canvas <= u32::MAX,
        0 <= content <= u32::MAX,
    ensures
        center_pad(0, u32::MAX as int) <= center_pad(canvas, content) <= center_pad(
            u32::MAX as int,
            0,
        ),
{
    vstd::arithmetic::div_mod::lemma_div_is_ordered(
        0 - u32::MAX as int,
        canvas - content,
        2,
    );
    vstd::arithmetic::div_mod::lemma_div_is_ordered(canvas - content, u32::MAX as int, 2);
}

/// The memo map from cache keys to shared render results.
pub struct GlyphCacheMap {
    entries: Vec<(CacheKey, Rc<Result<GlyphCache, String>>)>,
}

impl GlyphCacheMap {
    /// The entries as a map.
    pub closed spec fn spec_map(self) -> Map<CacheKey, Rc<Result<GlyphCache, String>>> {
        entries_map(self.entries@)
    }

    /// Each key appears at most once.
    pub closed spec fn wf(self) -> bool {
        forall|i: int, j: int|
            0 <= i < j < self.entries@.len() ==> (#[trigger] self.entries@[i]).0 != (
            #[trigger] self.entries@[j]).0
    }

    pub fn new() -> (m: GlyphCacheMap)
        ensures
            m.wf(),
            m.spec_map() == Map::<CacheKey, Rc<Result<GlyphCache, String>>>::empty(),
    {
        GlyphCacheMap { entries: Vec::new() }
    }

    /// Look the key up; a hit returns the stored handle.
    pub fn get(&self, key: CacheKey) -> (r: Option<&Rc<Result<GlyphCache, String>>>)
        requires
            self.wf(),
        ensures
            match r {
                Some(v) => self.spec_map().contains_key(key) && *v == self.spec_map()[key],
                None => !self.spec_map().contains_key(key),
            },
    {
        proof {
            lemma_entries_map_characterized(self.entries@);
        }
        let n: usize = self.entries.len();
        let mut i: usize = 0;
        while i < n
            invariant
                self.wf(),
                n == self.entries@.len(),
                i <= n,
                forall|t: int| 0 <= t < i ==> (#[trigger] self.entries@[t]).0 != key,
            decreases n - i,
        {
            if self.entries[i].0 == key {
                proof {
                    lemma_entries_map_get(self.entries@, i as int);
                }
                return Some(&self.entries[i].1);
            }
            i = i + 1;
        }
        None
    }

    /// Store the result for a key seen for the first time.
    pub fn insert(&mut self, key: CacheKey, value: Rc<Result<GlyphCache, String>>)
        requires
            old(self).wf(),
            !old(self).spec_map().contains_key(key),
        ensures
            final(self).wf(),
            final(self).spec_map() == old(self).spec_map().insert(key, value),
    {
        proof {
            lemma_entries_map_characterized(self.entries@);
        }
        self.entries.push((key, value));
        proof {
            assert(self.entries@.drop_last() =~= old(self).entries@);
            lemma_entries_map_characterized(self.entries@);
        }
    }
}

/// The map a list of entries denotes, later entries winning.
spec fn entries_map(s: Seq<(CacheKey, Rc<Result<GlyphCache, String>>)>) -> Map<
    CacheKey,
    Rc<Result<GlyphCache, String>>,
>
    decreases s.len(),
{
    if s.len() == 0 {
        Map::empty()
    } else {
        entries_map(s.drop_last()).insert(s.last().0, s.last().1)
    }
}

/// Membership in the entries map is membership in the list.
proof fn lemma_entries_map_characterized(s: Seq<(CacheKey, Rc<Result<GlyphCache, String>>)>)
    ensures
        forall|k: CacheKey|
            #[trigger] entries_map(s).contains_key(k) <==> exists|i: int|
                0 <= i < s.len() && (#[trigger] s[i]).0 == k,
    decreases s.len(),
{
    if s.len() > 0 {
        lemma_entries_map_characterized(s.drop_last());
        assert forall|k: CacheKey| #[trigger] entries_map(s).contains_key(k) implies exists|i: int|
            0 <= i < s.len() && (#[trigger] s[i]).0 == k by {
            if k == s.last().0 {
                assert(s[s.len() - 1].0 == k);
            } else {
                assert(entries_map(s) == entries_map(s.drop_last()).insert(
                    s.last().0,
                    s.last().1,
                ));
                assert(entries_map(s.drop_last()).contains_key(k));
                assert(exists|i: int|
                    0 <= i < s.drop_last().len() && (#[trigger] s.drop_last()[i]).0 == k);
                let i = choose|i: int|
                    0 <= i < s.drop_last().len() && (#[trigger] s.drop_last()[i]).0 == k;
                assert(s.drop_last()[i] == s[i]);
                assert(s[i].0 == k);
            }
        }
        assert forall|k: CacheKey|
            (exists|i: int| 0 <= i < s.len() && (#[trigger] s[i]).0 == k) implies #[trigger] entries_map(
            s,
        ).contains_key(k) by {
            let i = choose|i: int| 0 <= i < s.len() && (#[trigger] s[i]).0 == k;
            assert(entries_map(s) == entries_map(s.drop_last()).insert(s.last().0, s.last().1));
            if i < s.len() - 1 {
                assert(s.drop_last()[i].0 == k);
                assert(entries_map(s.drop_last()).contains_key(k) <==> exists|j: int|
                    0 <= j < s.drop_last().len() && (#[trigger] s.drop_last()[j]).0 == k);
                assert(entries_map(s.drop_last()).contains_key(k));
            } else {
                assert(k == s.last().0);
            }
        }
    }
}

/// An entry with no later duplicate is what the map returns for its key.
proof fn lemma_entries_map_get(s: Seq<(CacheKey, Rc<Result<GlyphCache, String>>)>, i: int)
    requires
        0 <= i < s.len(),
        forall|j: int| i < j < s.len() ==> (#[trigger] s[j]).0 != s[i].0,
    ensures
        entries_map(s).contains_key(s[i].0),
        entries_map(s)[s[i].0] == s[i].1,
    decreases s.len(),
{
    assert(entries_map(s) == entries_map(s.drop_last()).insert(s.last().0, s.last().1));
    if i == s.len() - 1 {
    } else {
        assert(s.drop_last()[i] == s[i]);
        assert forall|j: int|
            i < j < s.drop_last().len() implies (#[trigger] s.drop_last()[j]).0 != s
            .drop_last()[i].0 by {
            assert(s.drop_last()[j] == s[j]);
        }
        lemma_entries_map_get(s.drop_last(), i);
        assert(s[s.len() - 1].0 != s[i].0);
    }
}

} // verus!
