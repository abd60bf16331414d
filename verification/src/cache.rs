use crate::area::CellRect;
use crate::bitmap::{Bitmap, PixelGrid};
use crate::crop::{crop_with_pan, cropped_view};
use crate::dark::invert;
use crate::encoder::{cell_size, encodable, encode};
use crate::units::{scale_eq, scales_match, ZOOM_UNIT};
use ratatui_image::picker::Picker;
use ratatui_image::protocol::Protocol;
use std::collections::HashMap;
use vstd::prelude::*;
use vstd::std_specs::iter::IteratorSpec;

verus! {

broadcast use vstd::std_specs::hash::group_hash_axioms;

/// What a page cache holds, page by page: the rasterized bitmap and the scale
/// it was rendered at, the inverted bitmap where one was derived, the display
/// object for light mode and the one for dark mode where they were encoded,
/// and the page's text where it was extracted; and the zoom and pan that the
/// display objects were encoded for.
pub struct CacheModel {
    pub bitmaps: Map<usize, PixelGrid>,
    pub scales: Map<usize, u64>,
    pub inverted: Map<usize, PixelGrid>,
    pub light: Map<usize, Protocol>,
    pub dark: Map<usize, Protocol>,
    pub texts: Map<usize, Seq<char>>,
    pub zoom: u32,
    pub pan: (i32, i32),
}

/// Whether `page` lies no further than `radius` pages from `center`.
pub open spec fn page_near(page: usize, center: usize, radius: usize) -> bool {
    page - center <= radius && center - page <= radius
}

impl CacheModel {
    /// Nothing is derived from a bitmap that is not there, every bitmap has
    /// its scale, and an inverted bitmap is the inversion of the page's
    /// bitmap.
    pub open spec fn wf(self) -> bool {
        &&& self.scales.dom() == self.bitmaps.dom()
        &&& self.inverted.dom().subset_of(self.bitmaps.dom())
        &&& self.light.dom().subset_of(self.bitmaps.dom())
        &&& self.dark.dom().subset_of(self.bitmaps.dom())
        &&& forall|p: usize| #[trigger]
            self.inverted.contains_key(p) ==> self.inverted[p] == self.bitmaps[p].inverted()
    }

    /// The cache that holds nothing, at a zoom of one and no pan.
    pub open spec fn empty() -> CacheModel {
        CacheModel {
            bitmaps: Map::empty(),
            scales: Map::empty(),
            inverted: Map::empty(),
            light: Map::empty(),
            dark: Map::empty(),
            texts: Map::empty(),
            zoom: ZOOM_UNIT,
            pan: (0, 0),
        }
    }

    /// The cache with everything dropped.
    pub open spec fn cleared(self) -> CacheModel {
        CacheModel { zoom: self.zoom, pan: self.pan, ..CacheModel::empty() }
    }

    /// The cache with every display object dropped.
    pub open spec fn without_displays(self) -> CacheModel {
        CacheModel { light: Map::empty(), dark: Map::empty(), ..self }
    }

    /// The cache once `img`, rendered at `scale`, has become the bitmap of
    /// `page`: what was derived from the page's earlier bitmap is gone.
    pub open spec fn with_bitmap(self, page: usize, scale: u64, img: PixelGrid) -> CacheModel {
        CacheModel {
            bitmaps: self.bitmaps.insert(page, img),
            scales: self.scales.insert(page, scale),
            inverted: self.inverted.remove(page),
            light: self.light.remove(page),
            dark: self.dark.remove(page),
            ..self
        }
    }

    /// Whether the cache holds a bitmap of `page` rendered at `scale`, up to
    /// the tolerance.
    pub open spec fn has_bitmap_at(self, page: usize, scale: u64) -> bool {
        self.scales.contains_key(page) && scale_eq(self.scales[page], scale)
    }

    /// The display object of `page` for the given mode, if one is cached.
    pub open spec fn display(self, page: usize, dark_mode: bool) -> Option<Protocol> {
        if dark_mode {
            self.dark.get(page)
        } else {
            self.light.get(page)
        }
    }

    /// The cache once the pages further than `radius` pages from `center`
    /// have been dropped, with all that was derived from them. Texts stay.
    pub open spec fn evicted(self, center: usize, radius: usize) -> CacheModel {
        CacheModel {
            bitmaps: keep_near(self.bitmaps, center, radius),
            scales: keep_near(self.scales, center, radius),
            inverted: keep_near(self.inverted, center, radius),
            light: keep_near(self.light, center, radius),
            dark: keep_near(self.dark, center, radius),
            ..self
        }
    }

    /// The cache once it has been told the current zoom and pan: where
    /// either differs from what the display objects were encoded for, every
    /// display object of every page is dropped.
    pub open spec fn synced(self, zoom: u32, pan: (i32, i32)) -> CacheModel {
        if self.zoom == zoom && self.pan == pan {
            self
        } else {
            CacheModel { light: Map::empty(), dark: Map::empty(), zoom, pan, ..self }
        }
    }

    /// Whether a display object of `page` for the given mode has to be
    /// encoded: there is a bitmap, and no display object yet.
    pub open spec fn needs_display(self, page: usize, dark_mode: bool) -> bool {
        self.bitmaps.contains_key(page) && self.display(page, dark_mode) is None
    }

    /// The picture that the display object of `page` for the given mode is
    /// encoded from: the page's bitmap, inverted for dark mode, and cut to
    /// what shows at the cache's zoom and pan.
    pub open spec fn display_source(self, page: usize, dark_mode: bool) -> PixelGrid {
        let base = if dark_mode {
            self.bitmaps[page].inverted()
        } else {
            self.bitmaps[page]
        };
        cropped_view(base, self.zoom as nat, self.pan.0 as int, self.pan.1 as int)
    }

    /// The cache once it is ready for a display object of `page` to be
    /// encoded at `zoom` and `pan`: synced to them, and holding the page's
    /// inverted bitmap where one is needed.
    pub open spec fn prepared(self, page: usize, dark_mode: bool, zoom: u32, pan: (i32, i32)) -> CacheModel {
        let s = self.synced(zoom, pan);
        if dark_mode && s.needs_display(page, dark_mode) {
            CacheModel { inverted: s.inverted.insert(page, s.bitmaps[page].inverted()), ..s }
        } else {
            s
        }
    }

    /// The cache once the encoder's answer for `page` in the given mode has
    /// been taken in: a display object is kept if the page has a bitmap, a
    /// failure changes nothing.
    pub open spec fn stored(self, page: usize, dark_mode: bool, encoded: Option<Protocol>) -> CacheModel {
        match encoded {
            Some(d) if self.bitmaps.contains_key(page) => if dark_mode {
                CacheModel { dark: self.dark.insert(page, d), ..self }
            } else {
                CacheModel { light: self.light.insert(page, d), ..self }
            },
            _ => self,
        }
    }

    /// The cache once `text` has become the text of `page`.
    pub open spec fn with_text(self, page: usize, text: Seq<char>) -> CacheModel {
        CacheModel { texts: self.texts.insert(page, text), ..self }
    }
}

/// The part of a map that belongs to pages no further than `radius` pages
/// from `center`.
pub open spec fn keep_near<V>(m: Map<usize, V>, center: usize, radius: usize) -> Map<usize, V> {
    Map::new(|p: usize| m.contains_key(p) && page_near(p, center, radius), |p: usize| m[p])
}

/// The cache of rasterized pages and of what is derived from them.
pub struct PageCache {
    images: HashMap<usize, Bitmap>,
    image_scales: HashMap<usize, u64>,
    inverted: HashMap<usize, Bitmap>,
    light: HashMap<usize, Protocol>,
    dark: HashMap<usize, Protocol>,
    texts: HashMap<usize, String>,
    current_zoom: u32,
    current_pan: (i32, i32),
}

impl View for PageCache {
    type V = CacheModel;

    closed spec fn view(&self) -> CacheModel {
        CacheModel {
            bitmaps: Map::new(|p: usize| self.images@.contains_key(p), |p: usize| self.images@[p]@),
            scales: self.image_scales@,
            inverted: Map::new(
                |p: usize| self.inverted@.contains_key(p),
                |p: usize| self.inverted@[p]@,
            ),
            light: self.light@,
            dark: self.dark@,
            texts: Map::new(|p: usize| self.texts@.contains_key(p), |p: usize| self.texts@[p]@),
            zoom: self.current_zoom,
            pan: self.current_pan,
        }
    }
}

impl PageCache {
    /// The cache keeps the rules of its model.
    pub open spec fn wf(&self) -> bool {
        self@.wf()
    }

    pub fn new() -> (r: PageCache)
        ensures
            r.wf(),
            r@ == CacheModel::empty(),
    {
        let r = PageCache {
            images: HashMap::new(),
            image_scales: HashMap::new(),
            inverted: HashMap::new(),
            light: HashMap::new(),
            dark: HashMap::new(),
            texts: HashMap::new(),
            current_zoom: ZOOM_UNIT,
            current_pan: (0, 0),
        };
        assert(r@.bitmaps =~= Map::empty());
        assert(r@.inverted =~= Map::empty());
        assert(r@.texts =~= Map::empty());
        r
    }

    /// Drops everything: bitmaps, what was derived from them, and texts.
    pub fn clear(&mut self)
        ensures
            final(self).wf(),
            final(self)@ == old(self)@.cleared(),
    {
        self.images.clear();
        self.image_scales.clear();
        self.inverted.clear();
        self.light.clear();
        self.dark.clear();
        self.texts.clear();
        assert(self@.bitmaps =~= Map::empty());
        assert(self@.inverted =~= Map::empty());
        assert(self@.texts =~= Map::empty());
    }

    /// Drops the display objects and nothing else.
    pub fn invalidate_protocols(&mut self)
        requires
            old(self).wf(),
        ensures
            final(self).wf(),
            final(self)@ == old(self)@.without_displays(),
    {
        self.light.clear();
        self.dark.clear();
    }

    pub fn has_image_at_scale(&self, page_idx: usize, scale: u64) -> (r: bool)
        ensures
            r == self@.has_bitmap_at(page_idx, scale),
    {
        match self.image_scales.get(&page_idx) {
            Some(s) => scales_match(*s, scale),
            None => false,
        }
    }

    /// Makes `img`, rendered at `scale`, the bitmap of the page, and drops
    /// what was derived from the page's earlier bitmap.
    pub fn insert_image(&mut self, page_idx: usize, scale: u64, img: Bitmap)
        requires
            old(self).wf(),
        ensures
            final(self).wf(),
            final(self)@ == old(self)@.with_bitmap(page_idx, scale, img@),
    {
        self.light.remove(&page_idx);
        self.dark.remove(&page_idx);
        self.inverted.remove(&page_idx);
        self.images.insert(page_idx, img);
        self.image_scales.insert(page_idx, scale);
        assert(self@.bitmaps =~= old(self)@.bitmaps.insert(page_idx, img@));
        assert(self@.inverted =~= old(self)@.inverted.remove(page_idx));
        assert(self@.texts =~= old(self)@.texts);
    }

    /// The extent in pixels of the page's bitmap, width first.
    pub fn image_dims(&self, page_idx: usize) -> (r: Option<(u32, u32)>)
        ensures
            match r {
                Some((w, h)) => self@.bitmaps.contains_key(page_idx) && w
                    == self@.bitmaps[page_idx].width && h == self@.bitmaps[page_idx].height,
                None => !self@.bitmaps.contains_key(page_idx),
            },
    {
        match self.images.get(&page_idx) {
            Some(img) => Some((img.width(), img.height())),
            None => None,
        }
    }

    /// Whether a display object of the page is cached for the given mode.
    pub fn has_protocol(&self, page_idx: usize, dark_mode: bool) -> (r: bool)
        ensures
            r == self@.display(page_idx, dark_mode) is Some,
    {
        if dark_mode {
            self.dark.contains_key(&page_idx)
        } else {
            self.light.contains_key(&page_idx)
        }
    }

    /// The cached display object of the page for the given mode.
    pub fn cached_protocol(&self, page_idx: usize, dark_mode: bool) -> (r: Option<&Protocol>)
        ensures
            match r {
                Some(d) => self@.display(page_idx, dark_mode) == Some(*d),
                None => self@.display(page_idx, dark_mode) is None,
            },
    {
        if dark_mode {
            self.dark.get(&page_idx)
        } else {
            self.light.get(&page_idx)
        }
    }

    /// Tells the cache the current zoom and pan, and hands out the picture
    /// that the page's display object has to be encoded from: `None` where
    /// a display object is cached already, or the page has no bitmap. The
    /// page's inverted bitmap is derived and kept where dark mode needs it.
    pub fn prepare_display(&mut self, page_idx: usize, dark_mode: bool, zoom: u32, pan: (i32, i32)) -> (r: Option<Bitmap>)
        requires
            old(self).wf(),
        ensures
            final(self).wf(),
            final(self)@ == old(self)@.prepared(page_idx, dark_mode, zoom, pan),
            match r {
                Some(src) => old(self)@.synced(zoom, pan).needs_display(page_idx, dark_mode)
                    && src@ == final(self)@.display_source(page_idx, dark_mode),
                None => !old(self)@.synced(zoom, pan).needs_display(page_idx, dark_mode),
            },
    {
        if self.current_zoom != zoom || self.current_pan.0 != pan.0 || self.current_pan.1
            != pan.1 {
            self.light.clear();
            self.dark.clear();
            self.current_zoom = zoom;
            self.current_pan = pan;
        }
        assert(self@ == old(self)@.synced(zoom, pan));
        let cached: bool = if dark_mode {
            self.dark.contains_key(&page_idx)
        } else {
            self.light.contains_key(&page_idx)
        };
        if cached {
            return None;
        }
        if dark_mode {
            if !self.inverted.contains_key(&page_idx) {
                match self.images.get(&page_idx) {
                    Some(normal) => {
                        let derived = invert(normal);
                        self.inverted.insert(page_idx, derived);
                        assert(self@.inverted =~= old(self)@.synced(zoom, pan).inverted.insert(
                            page_idx,
                            normal@.inverted(),
                        ));
                    },
                    None => {
                        return None;
                    },
                }
            } else {
                assert(self@.inverted.contains_key(page_idx));
                assert(self@.inverted =~= self@.inverted.insert(
                    page_idx,
                    self@.bitmaps[page_idx].inverted(),
                ));
            }
            match self.inverted.get(&page_idx) {
                Some(base) => {
                    assert(self@.inverted.contains_key(page_idx));
                    Some(crop_with_pan(base, zoom, pan.0, pan.1))
                },
                None => None,
            }
        } else {
            match self.images.get(&page_idx) {
                Some(base) => Some(crop_with_pan(base, zoom, pan.0, pan.1)),
                None => None,
            }
        }
    }

    /// Takes in the encoder's answer for the page in the given mode: a
    /// display object is cached, unless the page has no bitmap; a failure
    /// changes nothing.
    pub fn store_display(&mut self, page_idx: usize, dark_mode: bool, encoded: Option<Protocol>)
        requires
            old(self).wf(),
        ensures
            final(self).wf(),
            final(self)@ == old(self)@.stored(page_idx, dark_mode, encoded),
    {
        match encoded {
            Some(d) => {
                if self.images.contains_key(&page_idx) {
                    if dark_mode {
                        self.dark.insert(page_idx, d);
                    } else {
                        self.light.insert(page_idx, d);
                    }
                }
            },
            None => {},
        }
    }

    /// Gets the display object of the page for the given mode, encoding and
    /// caching it first where none is cached. `None` where the page has no
    /// bitmap, where the encoder cannot take the picture for `area`, and
    /// where the encoder fails.
    pub fn get_protocol(
        &mut self,
        page_idx: usize,
        dark_mode: bool,
        zoom: u32,
        pan: (i32, i32),
        picker: &Picker,
        area: CellRect,
    ) -> (r: Option<&Protocol>)
        requires
            old(self).wf(),
        ensures
            final(self).wf(),
            match r {
                Some(d) => final(self)@.display(page_idx, dark_mode) == Some(*d),
                None => final(self)@.display(page_idx, dark_mode) is None,
            },
            final(self)@ == old(self)@.prepared(page_idx, dark_mode, zoom, pan).stored(
                page_idx,
                dark_mode,
                final(self)@.display(page_idx, dark_mode),
            ),
            !old(self)@.synced(zoom, pan).needs_display(page_idx, dark_mode) ==> final(self)@
                == old(self)@.synced(zoom, pan),
            old(self)@.synced(zoom, pan).needs_display(page_idx, dark_mode) && !encodable(
                old(self)@.prepared(page_idx, dark_mode, zoom, pan).display_source(
                    page_idx,
                    dark_mode,
                ),
                area,
                cell_size(*picker),
            ) ==> r is None,
    {
        let source = self.prepare_display(page_idx, dark_mode, zoom, pan);
        let ghost ready = self@;
        match source {
            Some(img) => {
                let encoded = encode(picker, img, area);
                self.store_display(page_idx, dark_mode, encoded);
            },
            None => {
                assert(ready.light =~= ready.stored(
                    page_idx,
                    dark_mode,
                    ready.display(page_idx, dark_mode),
                ).light);
                assert(ready.dark =~= ready.stored(
                    page_idx,
                    dark_mode,
                    ready.display(page_idx, dark_mode),
                ).dark);
            },
        }
        self.cached_protocol(page_idx, dark_mode)
    }

    /// Drops every page further than `radius` pages from `center`: its
    /// bitmap and all that was derived from it.
    pub fn evict_distant(&mut self, center: usize, radius: usize)
        requires
            old(self).wf(),
        ensures
            final(self).wf(),
            final(self)@ == old(self)@.evicted(center, radius),
            forall|p: usize, scale: u64|
                !page_near(p, center, radius) ==> !#[trigger] final(self)@.has_bitmap_at(p, scale),
    {
        let far = self.far_pages(center, radius);
        let ghost mut gone: Set<usize> = Set::empty();
        let mut i: usize = 0;
        while i < far.len()
            invariant
                0 <= i <= far@.len(),
                forall|j: int|
                    0 <= j < far@.len() ==> old(self).images@.contains_key(#[trigger] far@[j])
                        && !page_near(far@[j], center, radius),
                forall|p: usize| gone.contains(p) <==> exists|j: int| 0 <= j < i && far@[j] == p,
                self.images@ == old(self).images@.remove_keys(gone),
                self.image_scales@ == old(self).image_scales@.remove_keys(gone),
                self.inverted@ == old(self).inverted@.remove_keys(gone),
                self.light@ == old(self).light@.remove_keys(gone),
                self.dark@ == old(self).dark@.remove_keys(gone),
                self.texts@ == old(self).texts@,
                self.current_zoom == old(self).current_zoom,
                self.current_pan == old(self).current_pan,
            decreases far@.len() - i,
        {
            let page: usize = far[i];
            self.images.remove(&page);
            self.image_scales.remove(&page);
            self.inverted.remove(&page);
            self.light.remove(&page);
            self.dark.remove(&page);
            proof {
                let before = gone;
                gone = gone.insert(page);
                assert(self.images@ =~= old(self).images@.remove_keys(gone));
                assert(self.image_scales@ =~= old(self).image_scales@.remove_keys(gone));
                assert(self.inverted@ =~= old(self).inverted@.remove_keys(gone));
                assert(self.light@ =~= old(self).light@.remove_keys(gone));
                assert(self.dark@ =~= old(self).dark@.remove_keys(gone));
                assert forall|p: usize| gone.contains(p) <==> exists|j: int|
                    0 <= j < i + 1 && far@[j] == p by {
                    if gone.contains(p) {
                        if p == page {
                            assert(far@[i as int] == p);
                        } else {
                            let j = choose|j: int| 0 <= j < i && far@[j] == p;
                            assert(0 <= j < i + 1 && far@[j] == p);
                        }
                    }
                }
            }
            i = i + 1;
        }
        proof {
            assert forall|p: usize| old(self).images@.contains_key(p) implies (gone.contains(p)
                <==> !page_near(p, center, radius)) by {
                if !page_near(p, center, radius) {
                    let j = choose|j: int| 0 <= j < far@.len() && far@[j] == p;
                    assert(far@[j] == p);
                }
            }
            let was = old(self)@;
            assert(self@.bitmaps =~= keep_near(was.bitmaps, center, radius));
            assert(self@.scales =~= keep_near(was.scales, center, radius));
            assert(self@.inverted =~= keep_near(was.inverted, center, radius));
            assert(self@.light =~= keep_near(was.light, center, radius));
            assert(self@.dark =~= keep_near(was.dark, center, radius));
            assert(self@.texts =~= was.texts);
        }
    }

    /// Whether the text of the page is cached.
    pub fn has_text(&self, page_idx: usize) -> (r: bool)
        ensures
            r == self@.texts.contains_key(page_idx),
    {
        self.texts.contains_key(&page_idx)
    }

    /// Makes `text` the text of the page.
    pub fn insert_text(&mut self, page_idx: usize, text: String)
        requires
            old(self).wf(),
        ensures
            final(self).wf(),
            final(self)@ == old(self)@.with_text(page_idx, text@),
    {
        self.texts.insert(page_idx, text);
        assert(self@.texts =~= old(self)@.texts.insert(page_idx, text@));
    }

    /// The cached text of the page.
    pub fn page_text(&self, page_idx: usize) -> (r: Option<&String>)
        ensures
            match r {
                Some(t) => self@.texts.contains_key(page_idx) && t@ == self@.texts[page_idx],
                None => !self@.texts.contains_key(page_idx),
            },
    {
        self.texts.get(&page_idx)
    }

    /// The pages that hold a bitmap and lie further than `radius` pages from
    /// `center`.
    fn far_pages(&self, center: usize, radius: usize) -> (far: Vec<usize>)
        ensures
            forall|j: int|
                0 <= j < far@.len() ==> self.images@.contains_key(#[trigger] far@[j]) && !page_near(
                    far@[j],
                    center,
                    radius,
                ),
            forall|p: usize|
                self.images@.contains_key(p) && !page_near(p, center, radius) ==> far@.contains(p),
    {
        let mut far: Vec<usize> = Vec::new();
        let ghost keys = vstd::std_specs::hash::spec_keys_iter(&self.images).remaining();
        assert(keys.unref().to_set() == self.images@.dom());
        for key in it: self.images.keys()
            invariant
                it.seq() == keys,
                keys.unref().to_set() == self.images@.dom(),
                forall|j: int|
                    0 <= j < far@.len() ==> self.images@.contains_key(#[trigger] far@[j])
                        && !page_near(far@[j], center, radius),
                forall|i: int|
                    0 <= i < it.index() && !page_near(*#[trigger] keys[i], center, radius)
                        ==> far@.contains(*keys[i]),
        {
            let page: usize = *key;
            let near: bool = if page >= center {
                page - center <= radius
            } else {
                center - page <= radius
            };
            proof {
                let i = it.index();
                assert(keys.unref()[i] == page);
                assert(keys.unref().contains(page));
                assert(keys.unref().to_set().contains(page));
            }
            if !near {
                let ghost before = far@;
                far.push(page);
                assert(far@[before.len() as int] == page);
                assert forall|i: int|
                    0 <= i < it.index() + 1 && !page_near(*#[trigger] keys[i], center, radius)
                        implies far@.contains(*keys[i]) by {
                    if i < it.index() {
                        let j = choose|j: int| 0 <= j < before.len() && before[j] == *keys[i];
                        assert(far@[j] == *keys[i]);
                    }
                }
            }
        }
        assert forall|p: usize|
            self.images@.contains_key(p) && !page_near(p, center, radius) implies far@.contains(
            p,
        ) by {
            assert(keys.unref().to_set().contains(p));
            assert(keys.unref().contains(p));
            let i = choose|i: int| 0 <= i < keys.unref().len() && keys.unref()[i] == p;
            assert(*keys[i] == p);
        }
        far
    }
}

/// A bitmap answers for every scale within the tolerance of the scale it was
/// rendered at: two such scales are interchangeable when the cache is asked,
/// though they may lie further apart than the tolerance.
pub proof fn lemma_hit_within_tolerance(m: CacheModel, page: usize, a: u64, c: u64)
    requires
        m.scales.contains_key(page),
        scale_eq(a, m.scales[page]),
        scale_eq(m.scales[page], c),
    ensures
        m.has_bitmap_at(page, a),
        m.has_bitmap_at(page, c),
{
}

/// Once a bitmap is inserted for a page, nothing derived from the page's
/// earlier bitmap is left, whatever the two scales were: for either mode and
/// any zoom and pan the next display object has to be encoded, and it is
/// encoded from the new bitmap.
pub proof fn lemma_insert_forces_encoding(
    m: CacheModel,
    page: usize,
    scale: u64,
    img: PixelGrid,
    dark_mode: bool,
    zoom: u32,
    pan: (i32, i32),
)
    requires
        m.wf(),
    ensures
        m.with_bitmap(page, scale, img).wf(),
        m.with_bitmap(page, scale, img).display(page, false) is None,
        m.with_bitmap(page, scale, img).display(page, true) is None,
        !m.with_bitmap(page, scale, img).inverted.contains_key(page),
        m.with_bitmap(page, scale, img).synced(zoom, pan).needs_display(page, dark_mode),
        m.with_bitmap(page, scale, img).prepared(page, dark_mode, zoom, pan).display_source(
            page,
            dark_mode,
        ) == cropped_view(
            if dark_mode {
                img.inverted()
            } else {
                img
            },
            zoom as nat,
            pan.0 as int,
            pan.1 as int,
        ),
{
}

/// Inserting a bitmap leaves every other page as it was, and makes the page
/// answer for exactly the scales within the tolerance of the new one.
pub proof fn lemma_insert_touches_one_page(
    m: CacheModel,
    page: usize,
    scale: u64,
    img: PixelGrid,
    other: usize,
    asked: u64,
)
    requires
        other != page,
    ensures
        m.with_bitmap(page, scale, img).has_bitmap_at(page, asked) == scale_eq(scale, asked),
        m.with_bitmap(page, scale, img).has_bitmap_at(other, asked) == m.has_bitmap_at(
            other,
            asked,
        ),
        m.with_bitmap(page, scale, img).display(other, false) == m.display(other, false),
        m.with_bitmap(page, scale, img).display(other, true) == m.display(other, true),
        m.with_bitmap(page, scale, img).inverted.get(other) == m.inverted.get(other),
{
}

/// Inserting the same bitmap at the same scale a second time changes nothing.
pub proof fn lemma_insert_idempotent(m: CacheModel, page: usize, scale: u64, img: PixelGrid)
    ensures
        m.with_bitmap(page, scale, img).with_bitmap(page, scale, img) == m.with_bitmap(
            page,
            scale,
            img,
        ),
{
    let once = m.with_bitmap(page, scale, img);
    let twice = once.with_bitmap(page, scale, img);
    assert(twice.bitmaps =~= once.bitmaps);
    assert(twice.scales =~= once.scales);
    assert(twice.inverted =~= once.inverted);
    assert(twice.light =~= once.light);
    assert(twice.dark =~= once.dark);
}

/// After an eviction a page further than `radius` pages from `center` has no
/// bitmap at any scale, and nothing derived from one.
pub proof fn lemma_evicted_far_page_is_gone(
    m: CacheModel,
    center: usize,
    radius: usize,
    page: usize,
    scale: u64,
)
    requires
        !page_near(page, center, radius),
    ensures
        !m.evicted(center, radius).has_bitmap_at(page, scale),
        !m.evicted(center, radius).bitmaps.contains_key(page),
        !m.evicted(center, radius).inverted.contains_key(page),
        m.evicted(center, radius).display(page, false) is None,
        m.evicted(center, radius).display(page, true) is None,
{
}

/// An eviction leaves every page no further than `radius` pages from
/// `center` as it was, and keeps the cache's rules.
pub proof fn lemma_evicted_near_page_stays(
    m: CacheModel,
    center: usize,
    radius: usize,
    page: usize,
    scale: u64,
)
    requires
        page_near(page, center, radius),
    ensures
        m.evicted(center, radius).has_bitmap_at(page, scale) == m.has_bitmap_at(page, scale),
        m.evicted(center, radius).bitmaps.get(page) == m.bitmaps.get(page),
        m.evicted(center, radius).inverted.get(page) == m.inverted.get(page),
        m.evicted(center, radius).display(page, false) == m.display(page, false),
        m.evicted(center, radius).display(page, true) == m.display(page, true),
        m.wf() ==> m.evicted(center, radius).wf(),
{
}

/// The two modes do not share display objects. With a light-mode object
/// cached and no dark-mode one, asking for dark mode at the same zoom and
/// pan has a new object encoded, from the inverted bitmap; once that object
/// is stored, the page has both.
pub proof fn lemma_modes_are_independent(m: CacheModel, page: usize, encoded: Protocol)
    requires
        m.wf(),
        m.display(page, false) is Some,
        m.display(page, true) is None,
    ensures
        m.synced(m.zoom, m.pan).needs_display(page, true),
        m.prepared(page, true, m.zoom, m.pan).display_source(page, true) == cropped_view(
            m.bitmaps[page].inverted(),
            m.zoom as nat,
            m.pan.0 as int,
            m.pan.1 as int,
        ),
        m.prepared(page, true, m.zoom, m.pan).stored(page, true, Some(encoded)).display(
            page,
            true,
        ) == Some(encoded),
        m.prepared(page, true, m.zoom, m.pan).stored(page, true, Some(encoded)).display(
            page,
            false,
        ) == m.display(page, false),
        m.prepared(page, true, m.zoom, m.pan).stored(page, true, Some(encoded)).wf(),
{
}

/// A change of zoom or pan drops the display objects of every page, and
/// nothing else; without a change nothing is dropped.
pub proof fn lemma_synced_drops_all_displays(
    m: CacheModel,
    zoom: u32,
    pan: (i32, i32),
    page: usize,
    dark_mode: bool,
)
    ensures
        (zoom != m.zoom || pan != m.pan) ==> m.synced(zoom, pan).display(page, dark_mode) is None,
        (zoom == m.zoom && pan == m.pan) ==> m.synced(zoom, pan) == m,
        m.synced(zoom, pan).bitmaps == m.bitmaps,
        m.synced(zoom, pan).scales == m.scales,
        m.synced(zoom, pan).inverted == m.inverted,
        m.synced(zoom, pan).zoom == zoom,
        m.synced(zoom, pan).pan == pan,
        m.wf() ==> m.synced(zoom, pan).wf(),
{
}

} // verus!
