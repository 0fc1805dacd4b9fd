//! The preview's mutable state: the filtered catalog, the flattened face
//! list, the selection, the active render style, the canvas size, and the
//! glyph render cache.
//!
//! All mutation funnels through one owner of this struct. Rasterization
//! itself cannot run here, so a redraw asks `render_probe` what to do: a
//! cache hit hands back the stored result, a miss hands back the exact
//! rasterization job, whose outcome `render_store` then renders with the
//! key's style, memoizes and returns.

use crate::cache::{
    center_pad, rc_clone, CacheKey, GlyphCache, GlyphCacheMap, GlyphCanvasShape, GlyphParagraph,
};
use crate::family::{Family, FilteredFamilies};
use crate::rasterizer::{Bitmap, RasterError};
use crate::render::{
    left_of, level10_ramp, level70_ramp, next_style, prev_style, right_of, spec_ascii_pixel,
    spec_mono_pixel, spec_moon_pixel, AsciiRender, AsciiRenders, MonoRender, MoonRender,
    RenderType,
};
use crate::grid::Grid;
use std::rc::Rc;
use vstd::prelude::*;
use vstd::string::StringExecFns;

verus! {

/// The byte width of the face name a visible pair addresses.
pub open spec fn face_width(data: Seq<Family>, pair: (usize, usize)) -> int {
    vstd::utf8::encode_utf8(data[pair.0 as int].faces@[pair.1 as int].name@).len() as usize as int
}

/// The widest face name among the first `n` entries of the index map.
pub open spec fn widths_max(data: Seq<Family>, im: Seq<(usize, usize)>, n: int) -> int
    decreases n,
{
    if n <= 0 {
        0
    } else {
        let w = face_width(data, im[n - 1]);
        let rest = widths_max(data, im, n - 1);
        if w > rest {
            w
        } else {
            rest
        }
    }
}

/// One rasterization job: everything needed to open the face and produce
/// the bitmap for the missing cache entry.
pub struct RasterRequest {
    /// The cache entry this job fills.
    pub key: CacheKey,
    /// The face's handle in the font database.
    pub face_id: usize,
    /// The face's index inside its source file.
    pub face_index: u32,
    /// The pre-located glyph id for the query character.
    pub gid: u16,
    /// The pixel height to rasterize at.
    pub pixel_height: u32,
    /// Whether to double the horizontal scale (the character-ramp styles
    /// compensate for tall terminal cells).
    pub double_hscale: bool,
}

/// What a redraw should do for the current selection.
pub enum RenderQuery {
    /// Nothing is selected: the filter matched no face.
    Empty,
    /// The memoized result for the current cache key.
    Cached(Rc<Result<GlyphCache, String>>),
    /// The current key is not cached yet: rasterize, then call
    /// `render_store` with the outcome.
    Needs(RasterRequest),
}

/// The error text shown in place of a preview.
pub open spec fn spec_raster_error_text(e: RasterError) -> Seq<char> {
    match e {
        RasterError::ParseFailed => "Can't parse font file"@,
        RasterError::NoGlyph => "Can't get target glyph from this font"@,
        RasterError::ReadFailed => "Can't read font file"@,
    }
}

/// The character the key's style produces at `(r, c)` of the bitmap.
pub open spec fn spec_char_pixel(rt: RenderType, bm: Bitmap, r: int, c: int) -> char {
    match rt {
        RenderType::AsciiLevel10 => spec_ascii_pixel(level10_ramp(), bm.spec_pixel(r, c)),
        RenderType::AsciiLevel70 => spec_ascii_pixel(level70_ramp(), bm.spec_pixel(r, c)),
        RenderType::Moon => spec_moon_pixel(
            left_of(bm, r, c),
            bm.spec_pixel(r, c),
            right_of(bm, r, c),
        ),
        RenderType::Mono => ' ',
    }
}

/// What the cache stores for `key` given the rasterization outcome: the
/// error's display text, the centered mono canvas shape, or one text line
/// per bitmap row in the key's character style.
pub open spec fn spec_render_value(
    v: Result<GlyphCache, String>,
    key: CacheKey,
    outcome: Result<Bitmap, RasterError>,
) -> bool {
    match outcome {
        Err(e) => v matches Err(m) && m@ == spec_raster_error_text(e),
        Ok(bm) => {
            if key.rt == RenderType::Mono {
                &&& v matches Ok(GlyphCache::Canvas(sh))
                &&& sh.wf()
                &&& sh.canvas_height == key.height
                &&& sh.h_pad == center_pad(key.width as int, bm.spec_width())
                &&& sh.v_pad == center_pad(key.height as int, bm.spec_height())
                &&& sh.bitmap.spec_rows() == bm.spec_height()
                &&& sh.bitmap.spec_cols() == bm.spec_width()
                &&& forall|r: int, c: int|
                    0 <= r < bm.spec_height() && 0 <= c < bm.spec_width()
                        ==> sh.bitmap.spec_at(r, c) == spec_mono_pixel(bm.spec_pixel(r, c))
            } else {
                &&& v matches Ok(GlyphCache::Paragraph(p))
                &&& p.lines@.len() == bm.spec_height()
                &&& forall|r: int|
                    0 <= r < bm.spec_height() ==> p.lines@[r]@ == Seq::new(
                        bm.spec_width() as nat,
                        |c: int| spec_char_pixel(key.rt, bm, r, c),
                    )
            }
        },
    }
}

/// The owner of all mutable preview state.
pub struct State {
    filtered: FilteredFamilies,
    index_map: Vec<(usize, usize)>,
    name_width_max: usize,
    selected: Option<usize>,
    height: u32,
    width: u32,
    rt: RenderType,
    cache: GlyphCacheMap,
}

impl State {
    pub closed spec fn spec_filtered(self) -> FilteredFamilies {
        self.filtered
    }

    pub closed spec fn spec_index_map(self) -> Seq<(usize, usize)> {
        self.index_map@
    }

    pub closed spec fn spec_selected(self) -> Option<usize> {
        self.selected
    }

    pub closed spec fn spec_rt(self) -> RenderType {
        self.rt
    }

    pub closed spec fn spec_width(self) -> u32 {
        self.width
    }

    pub closed spec fn spec_height(self) -> u32 {
        self.height
    }

    pub closed spec fn spec_name_width_max(self) -> int {
        self.name_width_max as int
    }

    pub closed spec fn spec_cache(self) -> Map<CacheKey, Rc<Result<GlyphCache, String>>> {
        self.cache.spec_map()
    }

    /// A pair the index map may hold: a face of a matched family.
    pub open spec fn visible_pair(f: FilteredFamilies, pair: (usize, usize)) -> bool {
        &&& f.spec_matched().contains(pair.0)
        &&& pair.0 < f.spec_data().len()
        &&& pair.1 < f.spec_data()[pair.0 as int].faces@.len()
    }

    /// Everything the struct maintains: a valid filter, distinct cache
    /// keys, an index map holding exactly the visible faces, a selection
    /// exactly when the map is non-empty, and canvas sizes small enough to
    /// scale to pixels.
    pub open spec fn wf(self) -> bool {
        &&& self.wf_base()
        &&& forall|t: int|
            0 <= t < self.spec_index_map().len() ==> Self::visible_pair(
                self.spec_filtered(),
                #[trigger] self.spec_index_map()[t],
            )
        &&& forall|pair: (usize, usize)|
            Self::visible_pair(self.spec_filtered(), pair) ==> self.spec_index_map().contains(
                pair,
            )
        &&& match self.spec_selected() {
            Some(sel) => self.spec_index_map().len() > 0 && sel < self.spec_index_map().len(),
            None => self.spec_index_map().len() == 0,
        }
    }

    /// The part of `wf` that does not involve the index map or selection.
    pub closed spec fn wf_base(self) -> bool {
        &&& self.filtered.wf()
        &&& self.cache.wf()
        &&& self.width <= 0x3fffffff
        &&& self.height <= 0x3fffffff
    }

    /// Wrap a freshly filtered catalog, select its first visible face, and
    /// start with the mono style and an empty cache.
    pub fn new(filtered: FilteredFamilies) -> (s: State)
        requires
            filtered.wf(),
        ensures
            s.wf(),
            s.spec_filtered() == filtered,
            s.spec_rt() == RenderType::Mono,
            s.spec_cache() == Map::<CacheKey, Rc<Result<GlyphCache, String>>>::empty(),
            s.spec_width() == 0,
            s.spec_height() == 0,
            s.spec_selected() == if s.spec_index_map().len() > 0 {
                Some(0usize)
            } else {
                None::<usize>
            },
    {
        let mut s = State {
            filtered,
            index_map: Vec::new(),
            name_width_max: 0,
            selected: None,
            height: 0,
            width: 0,
            rt: RenderType::Mono,
            cache: GlyphCacheMap::new(),
        };
        s.update_search_box(None);
        s
    }

    /// Re-filter for a new keyword (if one is given), rebuild the flat face
    /// index map and the widest-name measure, and reset the selection to
    /// the first visible face.
    pub fn update_search_box(&mut self, keyword: Option<&str>)
        requires
            old(self).wf_base(),
        ensures
            final(self).wf(),
            final(self).spec_filtered().spec_data() == old(self).spec_filtered().spec_data(),
            final(self).spec_filtered().spec_names() == old(self).spec_filtered().spec_names(),
            match keyword {
                Some(k) => final(self).spec_filtered().spec_keyword() == crate::family::lower_of(
                    k@,
                ),
                None => final(self).spec_filtered() == old(self).spec_filtered(),
            },
            final(self).spec_selected() == if final(self).spec_index_map().len() > 0 {
                Some(0usize)
            } else {
                None::<usize>
            },
            final(self).spec_name_width_max() == widths_max(
                final(self).spec_filtered().spec_data(),
                final(self).spec_index_map(),
                final(self).spec_index_map().len() as int,
            ),
            final(self).spec_rt() == old(self).spec_rt(),
            final(self).spec_width() == old(self).spec_width(),
            final(self).spec_height() == old(self).spec_height(),
            final(self).spec_cache() == old(self).spec_cache(),
    {
        if let Some(k) = keyword {
            self.filtered.change_keyword(k);
        }
        proof {
            self.filtered.lemma_matched_equals_rescan();
            self.filtered.lemma_wf_dimensions();
        }
        let idxs: Vec<usize> = self.filtered.matched_indices();
        let data: &Vec<Family> = self.filtered.data();
        let mut im: Vec<(usize, usize)> = Vec::new();
        let m: usize = idxs.len();
        let mut t: usize = 0;
        while t < m
            invariant
                self.filtered.wf(),
                m == idxs@.len(),
                t <= m,
                data@ == self.filtered.spec_data(),
                forall|x: usize| #[trigger] idxs@.contains(x) <==> self.filtered.spec_matched().contains(x),
                forall|a: int, b: int| 0 <= a < b < m ==> idxs@[a] < idxs@[b],
                forall|u: int|
                    0 <= u < im@.len() ==> Self::visible_pair(
                        self.filtered,
                        #[trigger] im@[u],
                    ),
                forall|pair: (usize, usize)|
                    #[trigger] im@.contains(pair) <==> (idxs@.subrange(0, t as int).contains(
                        pair.0,
                    ) && pair.1 < self.filtered.spec_data()[pair.0 as int].faces@.len()),
            decreases m - t,
        {
            let fam: usize = idxs[t];
            proof {
                self.filtered.lemma_matched_equals_rescan();
                self.filtered.lemma_wf_dimensions();
                assert(idxs@.contains(fam));
                assert(self.filtered.spec_matched().contains(fam));
                assert(fam < self.filtered.spec_names().len());
            }
            let faces_len: usize = data[fam].faces.len();
            let ghost im_before = im@;
            let mut x: usize = 0;
            while x < faces_len
                invariant
                    self.filtered.wf(),
                    m == idxs@.len(),
                    t < m,
                    x <= faces_len,
                    fam == idxs@[t as int],
                    self.filtered.spec_matched().contains(fam),
                    data@ == self.filtered.spec_data(),
                    fam < data@.len(),
                    faces_len == data@[fam as int].faces@.len(),
                    forall|u: int|
                        0 <= u < im@.len() ==> Self::visible_pair(
                            self.filtered,
                            #[trigger] im@[u],
                        ),
                    forall|pair: (usize, usize)|
                        #[trigger] im@.contains(pair) <==> (im_before.contains(pair) || (pair.0
                            == fam && pair.1 < x)),
                decreases faces_len - x,
            {
                let ghost before = im@;
                im.push((fam, x));
                proof {
                    assert forall|pair: (usize, usize)| #[trigger] im@.contains(pair) implies (
                    before.contains(pair) || pair == (fam, x)) by {
                        let w = choose|w: int| 0 <= w < im@.len() && im@[w] == pair;
                        if w < before.len() {
                            assert(before[w] == pair);
                        }
                    }
                    assert(im@[im@.len() - 1] == (fam, x));
                    assert forall|pair: (usize, usize)|
                        before.contains(pair) implies #[trigger] im@.contains(pair) by {
                        let w = choose|w: int| 0 <= w < before.len() && before[w] == pair;
                        assert(im@[w] == pair);
                    }
                }
                x = x + 1;
            }
            proof {
                let pre = idxs@.subrange(0, t as int);
                let post = idxs@.subrange(0, t + 1);
                assert(post =~= pre.push(fam));
                assert forall|pair: (usize, usize)| #[trigger] im@.contains(pair) implies (
                post.contains(pair.0) && pair.1
                    < self.filtered.spec_data()[pair.0 as int].faces@.len()) by {
                    if im_before.contains(pair) {
                        let w = choose|w: int| 0 <= w < pre.len() && pre[w] == pair.0;
                        assert(post[w] == pair.0);
                    } else {
                        assert(post[t as int] == fam);
                    }
                }
                assert forall|pair: (usize, usize)|
                    (post.contains(pair.0) && pair.1
                        < self.filtered.spec_data()[pair.0 as int].faces@.len()) implies #[trigger] im@.contains(
                    pair,
                ) by {
                    let w = choose|w: int| 0 <= w < post.len() && post[w] == pair.0;
                    if w < pre.len() {
                        assert(pre[w] == pair.0);
                    } else {
                        assert(pair.0 == fam);
                    }
                }
            }
            t = t + 1;
        }
        proof {
            assert(idxs@.subrange(0, m as int) =~= idxs@);
        }
        // The widest visible face name, for the list column layout.
        let n: usize = im.len();
        let mut nwm: usize = 0;
        let mut u: usize = 0;
        while u < n
            invariant
                self.filtered.wf(),
                n == im@.len(),
                u <= n,
                data@ == self.filtered.spec_data(),
                forall|w: int|
                    0 <= w < im@.len() ==> Self::visible_pair(
                        self.filtered,
                        #[trigger] im@[w],
                    ),
                nwm == widths_max(data@, im@, u as int),
            decreases n - u,
        {
            let pair: (usize, usize) = im[u];
            let w: usize = data[pair.0].faces[pair.1].name.as_str().len();
            if w > nwm {
                nwm = w;
            }
            u = u + 1;
        }
        self.index_map = im;
        self.name_width_max = nwm;
        if n > 0 {
            self.selected = Some(0);
        } else {
            self.selected = None;
        }
        proof {
            assert forall|pair: (usize, usize)|
                Self::visible_pair(self.filtered, pair) implies self.index_map@.contains(
                pair,
            ) by {
                assert(idxs@.contains(pair.0));
            }
        }
    }

    /// How many faces the list currently shows.
    pub fn len(&self) -> (n: usize)
        ensures
            n == self.spec_index_map().len(),
    {
        self.index_map.len()
    }

    /// The selected position in the face list, if any.
    pub fn index(&self) -> (r: Option<usize>)
        ensures
            r == self.spec_selected(),
    {
        self.selected
    }

    /// Move the selection up one entry; at the top it stays put.
    pub fn move_up(&mut self)
        requires
            old(self).wf(),
        ensures
            final(self).wf(),
            final(self).spec_selected() == match old(self).spec_selected() {
                None => None::<usize>,
                Some(sel) => Some(if sel == 0 {
                    0usize
                } else {
                    (sel - 1) as usize
                }),
            },
            final(self).spec_filtered() == old(self).spec_filtered(),
            final(self).spec_index_map() == old(self).spec_index_map(),
            final(self).spec_name_width_max() == old(self).spec_name_width_max(),
            final(self).spec_width() == old(self).spec_width(),
            final(self).spec_height() == old(self).spec_height(),
            final(self).spec_rt() == old(self).spec_rt(),
            final(self).spec_cache() == old(self).spec_cache(),
    {
        self.selected = match self.selected {
            None => None,
            Some(sel) => Some(if sel == 0 {
                0
            } else {
                sel - 1
            }),
        };
    }

    /// Move the selection down one entry; at the bottom it stays put.
    pub fn move_down(&mut self)
        requires
            old(self).wf(),
        ensures
            final(self).wf(),
            final(self).spec_selected() == match old(self).spec_selected() {
                None => None::<usize>,
                Some(sel) => Some(
                    if sel + 1 < old(self).spec_index_map().len() {
                        (sel + 1) as usize
                    } else {
                        (old(self).spec_index_map().len() - 1) as usize
                    },
                ),
            },
            final(self).spec_filtered() == old(self).spec_filtered(),
            final(self).spec_index_map() == old(self).spec_index_map(),
            final(self).spec_name_width_max() == old(self).spec_name_width_max(),
            final(self).spec_width() == old(self).spec_width(),
            final(self).spec_height() == old(self).spec_height(),
            final(self).spec_rt() == old(self).spec_rt(),
            final(self).spec_cache() == old(self).spec_cache(),
    {
        let n: usize = self.index_map.len();
        self.selected = match self.selected {
            None => None,
            Some(sel) => Some(
                if sel + 1 < n {
                    sel + 1
                } else {
                    n - 1
                },
            ),
        };
    }

    /// The active render style.
    pub fn get_render_type(&self) -> (rt: &RenderType)
        ensures
            *rt == self.spec_rt(),
    {
        &self.rt
    }

    /// Advance the render style one step through the fixed cycle.
    pub fn next_render_type(&mut self)
        requires
            old(self).wf(),
        ensures
            final(self).wf(),
            final(self).spec_rt() == next_style(old(self).spec_rt()),
            final(self).spec_filtered() == old(self).spec_filtered(),
            final(self).spec_index_map() == old(self).spec_index_map(),
            final(self).spec_name_width_max() == old(self).spec_name_width_max(),
            final(self).spec_selected() == old(self).spec_selected(),
            final(self).spec_width() == old(self).spec_width(),
            final(self).spec_height() == old(self).spec_height(),
            final(self).spec_cache() == old(self).spec_cache(),
    {
        self.rt = match self.rt {
            RenderType::AsciiLevel10 => RenderType::AsciiLevel70,
            RenderType::AsciiLevel70 => RenderType::Moon,
            RenderType::Moon => RenderType::Mono,
            RenderType::Mono => RenderType::AsciiLevel10,
        };
    }

    /// Step the render style back one step through the fixed cycle.
    pub fn prev_render_type(&mut self)
        requires
            old(self).wf(),
        ensures
            final(self).wf(),
            final(self).spec_rt() == prev_style(old(self).spec_rt()),
            final(self).spec_filtered() == old(self).spec_filtered(),
            final(self).spec_index_map() == old(self).spec_index_map(),
            final(self).spec_name_width_max() == old(self).spec_name_width_max(),
            final(self).spec_selected() == old(self).spec_selected(),
            final(self).spec_width() == old(self).spec_width(),
            final(self).spec_height() == old(self).spec_height(),
            final(self).spec_cache() == old(self).spec_cache(),
    {
        self.rt = match self.rt {
            RenderType::AsciiLevel10 => RenderType::Mono,
            RenderType::AsciiLevel70 => RenderType::AsciiLevel10,
            RenderType::Moon => RenderType::AsciiLevel70,
            RenderType::Mono => RenderType::Moon,
        };
    }

    /// Record the preview pane's size in character cells.
    pub fn update_canvas_size_by_char(&mut self, width: u32, height: u32)
        requires
            old(self).wf(),
            width <= 0x3fffffff,
            height <= 0x3fffffff,
        ensures
            final(self).wf(),
            final(self).spec_width() == width,
            final(self).spec_height() == height,
            final(self).spec_filtered() == old(self).spec_filtered(),
            final(self).spec_index_map() == old(self).spec_index_map(),
            final(self).spec_name_width_max() == old(self).spec_name_width_max(),
            final(self).spec_selected() == old(self).spec_selected(),
            final(self).spec_rt() == old(self).spec_rt(),
            final(self).spec_cache() == old(self).spec_cache(),
    {
        self.width = width;
        self.height = height;
    }

    /// The preview pane's size in character cells.
    pub fn get_canvas_size_by_char(&self) -> (s: (u32, u32))
        ensures
            s.0 == self.spec_width(),
            s.1 == self.spec_height(),
    {
        (self.width, self.height)
    }

    /// The preview pane's size in canvas pixels: each character cell plots
    /// two pixels across and four down.
    pub fn get_canvas_size_by_pixel(&self) -> (s: (u32, u32))
        requires
            self.wf_base(),
        ensures
            s.0 == self.spec_width() * 2,
            s.1 == self.spec_height() * 4,
    {
        (self.width * 2, self.height * 4)
    }

    /// The canvas size the active style draws at: pixels for mono,
    /// character cells for the text styles.
    pub open spec fn spec_canvas_size(self) -> (u32, u32) {
        if self.spec_rt() == RenderType::Mono {
            ((self.spec_width() * 2) as u32, (self.spec_height() * 4) as u32)
        } else {
            (self.spec_width(), self.spec_height())
        }
    }

    /// The cache key the current selection, style and size address.
    pub open spec fn spec_cache_key(self) -> CacheKey
        recommends
            self.spec_selected() is Some,
    {
        CacheKey {
            family_index: self.spec_index_map()[self.spec_selected().unwrap() as int].0,
            face_index: self.spec_index_map()[self.spec_selected().unwrap() as int].1,
            rt: self.spec_rt(),
            width: self.spec_canvas_size().0,
            height: self.spec_canvas_size().1,
        }
    }

    /// The face record the current selection addresses.
    pub open spec fn spec_current_face(self) -> crate::family::FaceInfo
        recommends
            self.spec_selected() is Some,
    {
        let pair = self.spec_index_map()[self.spec_selected().unwrap() as int];
        self.spec_filtered().spec_data()[pair.0 as int].faces@[pair.1 as int]
    }

    /// The selected face's display name.
    pub fn current_name(&self) -> (r: Option<&String>)
        requires
            self.wf(),
        ensures
            match r {
                Some(n) => self.spec_selected() is Some && *n == self.spec_current_face().name,
                None => self.spec_selected() is None,
            },
    {
        match self.selected {
            None => None,
            Some(sel) => {
                let pair: (usize, usize) = self.index_map[sel];
                Some(&self.filtered.data()[pair.0].faces[pair.1].name)
            },
        }
    }

    /// The current lower-cased filter keyword.
    pub fn keyword(&self) -> (r: &String)
        requires
            self.wf(),
        ensures
            r@ == self.spec_filtered().spec_keyword(),
    {
        self.filtered.keyword()
    }

    /// The widest visible face name, in bytes.
    pub fn name_width_max(&self) -> (w: usize)
        ensures
            w == self.spec_name_width_max(),
    {
        self.name_width_max
    }

    /// The visible face names, in list order.
    pub fn font_face_names(&self) -> (r: Vec<String>)
        requires
            self.wf(),
        ensures
            r@.len() == self.spec_index_map().len(),
            forall|t: int|
                0 <= t < r@.len() ==> r@[t]@ == self.spec_filtered().spec_data()[
                    self.spec_index_map()[t].0 as int
                ].faces@[self.spec_index_map()[t].1 as int].name@,
    {
        let n: usize = self.index_map.len();
        let data: &Vec<Family> = self.filtered.data();
        let mut r: Vec<String> = Vec::new();
        let mut t: usize = 0;
        while t < n
            invariant
                self.wf(),
                n == self.spec_index_map().len(),
                t <= n,
                data@ == self.spec_filtered().spec_data(),
                r@.len() == t,
                forall|u: int|
                    0 <= u < t ==> r@[u]@ == self.spec_filtered().spec_data()[
                        self.spec_index_map()[u].0 as int
                    ].faces@[self.spec_index_map()[u].1 as int].name@,
            decreases n - t,
        {
            let pair: (usize, usize) = self.index_map[t];
            r.push(data[pair.0].faces[pair.1].name.clone());
            t = t + 1;
        }
        r
    }

    /// Ask what a redraw should do: nothing is selected, the current key is
    /// cached (the stored handle comes back, nothing is recomputed), or the
    /// key is missing and this exact rasterization job would fill it.
    pub fn render_probe(&self) -> (q: RenderQuery)
        requires
            self.wf(),
        ensures
            match q {
                RenderQuery::Empty => self.spec_selected() is None,
                RenderQuery::Cached(v) => {
                    &&& self.spec_selected() is Some
                    &&& self.spec_cache().contains_key(self.spec_cache_key())
                    &&& v == self.spec_cache()[self.spec_cache_key()]
                },
                RenderQuery::Needs(req) => {
                    &&& self.spec_selected() is Some
                    &&& !self.spec_cache().contains_key(self.spec_cache_key())
                    &&& req.key == self.spec_cache_key()
                    &&& req.face_id == self.spec_current_face().id
                    &&& req.face_index == self.spec_current_face().index
                    &&& req.gid == self.spec_current_face().gid
                    &&& req.pixel_height == self.spec_cache_key().height
                    &&& req.double_hscale == (self.spec_rt() == RenderType::AsciiLevel10
                        || self.spec_rt() == RenderType::AsciiLevel70)
                },
            },
    {
        match self.selected {
            None => RenderQuery::Empty,
            Some(sel) => {
                let size: (u32, u32) = if matches!(self.rt, RenderType::Mono) {
                    self.get_canvas_size_by_pixel()
                } else {
                    self.get_canvas_size_by_char()
                };
                let pair: (usize, usize) = self.index_map[sel];
                let key = CacheKey {
                    family_index: pair.0,
                    face_index: pair.1,
                    rt: self.rt,
                    width: size.0,
                    height: size.1,
                };
                match self.cache.get(key) {
                    Some(v) => RenderQuery::Cached(rc_clone(v)),
                    None => {
                        let face = &self.filtered.data()[pair.0].faces[pair.1];
                        RenderQuery::Needs(
                            RasterRequest {
                                key,
                                face_id: face.id,
                                face_index: face.index,
                                gid: face.gid,
                                pixel_height: size.1,
                                double_hscale: matches!(
                                    self.rt,
                                    RenderType::AsciiLevel10 | RenderType::AsciiLevel70
                                ),
                            },
                        )
                    },
                }
            },
        }
    }

    /// Render the rasterization outcome in the key's style, memoize it, and
    /// return the stored handle.
    pub fn render_store(&mut self, key: CacheKey, outcome: Result<Bitmap, RasterError>) -> (r: Rc<
        Result<GlyphCache, String>,
    >)
        requires
            old(self).wf(),
            !old(self).spec_cache().contains_key(key),
            (outcome matches Ok(bm) ==> bm.wf() && bm.spec_height() <= u32::MAX
                && bm.spec_width() <= u32::MAX),
        ensures
            final(self).wf(),
            final(self).spec_cache() == old(self).spec_cache().insert(key, r),
            spec_render_value(*r, key, outcome),
            final(self).spec_filtered() == old(self).spec_filtered(),
            final(self).spec_index_map() == old(self).spec_index_map(),
            final(self).spec_name_width_max() == old(self).spec_name_width_max(),
            final(self).spec_selected() == old(self).spec_selected(),
            final(self).spec_width() == old(self).spec_width(),
            final(self).spec_height() == old(self).spec_height(),
            final(self).spec_rt() == old(self).spec_rt(),
    {
        let value: Result<GlyphCache, String> = match outcome {
            Err(e) => Err(raster_error_message(e)),
            Ok(bm) => match key.rt {
                RenderType::Mono => {
                    let mono = MonoRender {  };
                    let g = mono.render(&bm);
                    Ok(GlyphCache::Canvas(GlyphCanvasShape::new(g, key.width, key.height)))
                },
                RenderType::AsciiLevel10 => {
                    let a = AsciiRender::new(AsciiRenders::Level10);
                    let g = a.render(&bm);
                    let p = GlyphParagraph::new(&g);
                    proof {
                        lemma_lines_match(p.lines@, g, key.rt, bm);
                    }
                    Ok(GlyphCache::Paragraph(p))
                },
                RenderType::AsciiLevel70 => {
                    let a = AsciiRender::new(AsciiRenders::Level70);
                    let g = a.render(&bm);
                    let p = GlyphParagraph::new(&g);
                    proof {
                        lemma_lines_match(p.lines@, g, key.rt, bm);
                    }
                    Ok(GlyphCache::Paragraph(p))
                },
                RenderType::Moon => {
                    let m = MoonRender::new();
                    let g = m.render(&bm);
                    let p = GlyphParagraph::new(&g);
                    proof {
                        lemma_lines_match(p.lines@, g, key.rt, bm);
                    }
                    Ok(GlyphCache::Paragraph(p))
                },
            },
        };
        let stored = Rc::new(value);
        let handle = rc_clone(&stored);
        self.cache.insert(key, stored);
        handle
    }
}

/// The stored error text for each rasterization failure.
fn raster_error_message(e: RasterError) -> (m: String)
    ensures
        m@ == spec_raster_error_text(e),
{
    match e {
        RasterError::ParseFailed => String::from_str("Can't parse font file"),
        RasterError::NoGlyph => String::from_str("Can't get target glyph from this font"),
        RasterError::ReadFailed => String::from_str("Can't read font file"),
    }
}

/// Rows flattened from a grid that a character style filled match the
/// style's per-pixel specification.
proof fn lemma_lines_match(lines: Seq<String>, g: Grid<char>, rt: RenderType, bm: Bitmap)
    requires
        rt != RenderType::Mono,
        g.spec_rows() == bm.spec_height(),
        g.spec_cols() == bm.spec_width(),
        lines.len() == g.spec_rows(),
        forall|r: int|
            0 <= r < g.spec_rows() ==> lines[r]@ == Seq::new(
                g.spec_cols() as nat,
                |c: int| g.spec_at(r, c),
            ),
        forall|r: int, c: int|
            0 <= r < g.spec_rows() && 0 <= c < g.spec_cols() ==> g.spec_at(r, c)
                == spec_char_pixel(rt, bm, r, c),
    ensures
        forall|r: int|
            0 <= r < bm.spec_height() ==> lines[r]@ == Seq::new(
                bm.spec_width() as nat,
                |c: int| spec_char_pixel(rt, bm, r, c),
            ),
{
    assert forall|r: int| 0 <= r < bm.spec_height() implies lines[r]@ == Seq::new(
        bm.spec_width() as nat,
        |c: int| spec_char_pixel(rt, bm, r, c),
    ) by {
        assert(lines[r]@ =~= Seq::new(bm.spec_width() as nat, |c: int| spec_char_pixel(rt, bm, r, c)));
    }
}

} // verus!
