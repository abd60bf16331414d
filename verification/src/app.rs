use crate::area::{aligned_area, aligned_image_area, CellRect, HAlign};
use crate::bitmap::Bitmap;
use crate::cache::{CacheModel, PageCache};
use crate::encoder::{cell_size, encodable, font_size};
use crate::goto::{parse_number, parsed_number};
use crate::input::{goto_key_message, key_message, key_to_goto_message, key_to_message, Key};
use crate::layout::PageLayout;
use crate::scale::{fit_scale, render_scale_of};
use crate::units::{
    pan_in_range, scale_eq, scales_match, zoom_in_range, PAN_LIMIT, SCALE_UNIT, ZOOM_MAX, ZOOM_MIN,
    ZOOM_UNIT,
};
use ratatui_image::picker::Picker;
use std::collections::HashSet;
use vstd::prelude::*;
use vstd::std_specs::iter::IteratorSpec;

verus! {

broadcast use vstd::std_specs::hash::group_hash_axioms;

/// How many pages before and after the visible ones are rendered ahead of
/// need.
pub const LOOKAROUND: usize = 5;

/// How many pages after the visible ones get their display objects encoded
/// as soon as results have arrived.
pub const PREWARM_AHEAD: usize = 3;

/// How far one key press pans, in hundredths.
pub const PAN_STEP: i32 = 15;

/// How far one key press zooms, in hundredths.
pub const ZOOM_STEP: u32 = 10;

/// How many lines one key press scrolls the text.
pub const TEXT_SCROLL_STEP: usize = 3;

/// How many characters a page number can be typed with.
pub const GOTO_LIMIT: usize = 10;

/// How far from the current page a page may lie and stay in the cache.
pub const EVICT_RADIUS: usize = 15;

/// How long the loop waits for input, in milliseconds: while a visible page
/// is being rendered, while display objects are left to encode, and when
/// nothing is left to do.
pub const FRAME_WAIT_MS: u64 = 16;

pub const IDLE_WAIT_MS: u64 = 1;

pub const SETTLED_WAIT_MS: u64 = 60_000;

/// The extent of a page, in thousandths of a point, where the document does
/// not tell: that of a letter page.
pub const LETTER_WIDTH: u32 = 612_000;

pub const LETTER_HEIGHT: u32 = 792_000;

/// How the viewer starts.
pub struct AppConfig {
    pub dark_mode: bool,
    pub fullscreen: bool,
    pub start_page: usize,
    pub layout: PageLayout,
    pub text_mode: bool,
}

/// What the user can ask of the viewer.
#[derive(Clone, Copy, PartialEq, Eq, Structural, Debug)]
pub enum Message {
    Quit,
    NextPage,
    PrevPage,
    FirstPage,
    LastPage,
    ZoomIn,
    ZoomOut,
    ZoomReset,
    ScrollUp,
    ScrollDown,
    ScrollLeft,
    ScrollRight,
    CycleLayout,
    ToggleDarkMode,
    ToggleFullscreen,
    ToggleTextMode,
    EnterGoto,
    GotoInput(char),
    GotoBackspace,
    GotoConfirm,
    GotoCancel,
}

/// A page to rasterize, and the scale to rasterize it at.
#[derive(Clone, Copy, PartialEq, Eq, Structural, Debug)]
pub struct RenderRequest {
    pub idx: usize,
    pub scale: u64,
}

/// A rasterized page, and the scale it was rasterized at.
pub struct RenderResult {
    pub idx: usize,
    pub scale: u64,
    pub img: Bitmap,
}

/// Why a viewer cannot be made.
#[derive(Clone, Copy, PartialEq, Eq, Structural, Debug)]
pub enum AppError {
    /// The document has no pages.
    NoPages,
}

/// The viewer's state: the page cache, the view state, and the pages whose
/// rendering is under way.
pub struct App {
    pub cache: PageCache,
    pub picker: Option<Picker>,
    pub current_page: usize,
    pub page_count: usize,
    pub zoom: u32,
    pub pan_x: i32,
    pub pan_y: i32,
    pub layout: PageLayout,
    pub dark_mode: bool,
    pub fullscreen: bool,
    pub goto_mode: bool,
    pub goto_input: Vec<char>,
    pub text_mode: bool,
    pub text_scroll: usize,
    pub term_cols: u16,
    pub term_rows: u16,
    pub page_bounds: (u32, u32),
    pub pending: HashSet<usize>,
    pub should_quit: bool,
}

/// The viewer's state as contracts see it. Of the encoder it holds the
/// extent of a cell in pixels, if there is an encoder at all.
pub struct AppModel {
    pub cache: CacheModel,
    pub cell: Option<(u16, u16)>,
    pub current_page: usize,
    pub page_count: usize,
    pub zoom: u32,
    pub pan_x: i32,
    pub pan_y: i32,
    pub layout: PageLayout,
    pub dark_mode: bool,
    pub fullscreen: bool,
    pub goto_mode: bool,
    pub goto_input: Seq<char>,
    pub text_mode: bool,
    pub text_scroll: usize,
    pub term_cols: u16,
    pub term_rows: u16,
    pub page_bounds: (u32, u32),
    pub pending: Set<usize>,
    pub should_quit: bool,
}

impl View for App {
    type V = AppModel;

    open spec fn view(&self) -> AppModel {
        AppModel {
            cache: self.cache@,
            cell: match self.picker {
                Some(p) => Some(cell_size(p)),
                None => None,
            },
            current_page: self.current_page,
            page_count: self.page_count,
            zoom: self.zoom,
            pan_x: self.pan_x,
            pan_y: self.pan_y,
            layout: self.layout,
            dark_mode: self.dark_mode,
            fullscreen: self.fullscreen,
            goto_mode: self.goto_mode,
            goto_input: self.goto_input@,
            text_mode: self.text_mode,
            text_scroll: self.text_scroll,
            term_cols: self.term_cols,
            term_rows: self.term_rows,
            page_bounds: self.page_bounds,
            pending: self.pending@,
            should_quit: self.should_quit,
        }
    }
}

impl AppModel {
    /// The cache keeps its rules, the current page is a page of the
    /// document, zoom and pan lie in their ranges, and without an encoder
    /// the viewer shows text.
    pub open spec fn wf(self) -> bool {
        &&& self.cache.wf()
        &&& self.current_page < self.page_count
        &&& zoom_in_range(self.zoom)
        &&& pan_in_range(self.pan_x)
        &&& pan_in_range(self.pan_y)
        &&& self.cell is None ==> self.text_mode
    }

    /// The rows that pages can use: all of them in fullscreen, else all but
    /// the status line.
    pub open spec fn usable_rows(self) -> u16 {
        if self.fullscreen || self.term_rows == 0 {
            self.term_rows
        } else {
            (self.term_rows - 1) as u16
        }
    }

    /// The scale that pages are rendered at. Without an encoder it is one.
    pub open spec fn render_scale(self) -> u64 {
        match self.cell {
            Some(cell) => render_scale_of(
                self.term_cols,
                self.usable_rows(),
                cell,
                self.layout,
                self.page_bounds,
                self.zoom,
            ) as u64,
            None => SCALE_UNIT,
        }
    }

    /// Whether a page has to be requested at a scale: the cache holds no
    /// bitmap of it at that scale, and no rendering of it is under way.
    pub open spec fn needs_request(self, page: usize, scale: u64) -> bool {
        !self.cache.has_bitmap_at(page, scale) && !self.pending.contains(page)
    }

    /// What requesting a page does: where it has to be requested, and there
    /// is an encoder to render for, the request goes out and the page
    /// counts as under way.
    pub open spec fn requested(self, page: usize, scale: u64) -> (AppModel, Option<RenderRequest>) {
        if self.cell is Some && self.needs_request(page, scale) {
            (
                AppModel { pending: self.pending.insert(page), ..self },
                Some(RenderRequest { idx: page, scale }),
            )
        } else {
            (self, None)
        }
    }

    /// How many places the request schedule has: one for each visible page,
    /// then one ahead and one behind for each step of the lookaround.
    pub open spec fn schedule_len(self) -> nat {
        (self.layout.across() + 2 * LOOKAROUND) as nat
    }

    /// The page at a place of the request schedule, if the document has it.
    /// First come the visible pages from the current one on. Then, step by
    /// step outwards, the page after those seen so far and the page before
    /// them, the one ahead first.
    pub open spec fn schedule_page(self, k: nat) -> Option<usize> {
        let n = self.layout.across();
        if k < n {
            if self.current_page + k < self.page_count {
                Some((self.current_page + k) as usize)
            } else {
                None
            }
        } else if (k - n) % 2 == 0 {
            if self.current_page + n + (k - n) / 2 < self.page_count {
                Some((self.current_page + n + (k - n) / 2) as usize)
            } else {
                None
            }
        } else {
            if self.current_page - (k - n) / 2 - 1 >= 0 {
                Some((self.current_page - (k - n) / 2 - 1) as usize)
            } else {
                None
            }
        }
    }

    /// The state after the first `k` places of the schedule were gone
    /// through, and the requests that went out, in their order.
    pub open spec fn scheduled(self, k: nat) -> (AppModel, Seq<RenderRequest>)
        decreases k,
    {
        if k == 0 {
            (self, Seq::empty())
        } else {
            let (state, sent) = self.scheduled((k - 1) as nat);
            match self.schedule_page((k - 1) as nat) {
                Some(page) => {
                    let (next, request) = state.requested(page, self.render_scale());
                    match request {
                        Some(r) => (next, sent.push(r)),
                        None => (next, sent),
                    }
                },
                None => (state, sent),
            }
        }
    }

    /// The cache after rendering results were taken in, one after the
    /// other: a result rendered at `scale`, up to the tolerance, becomes the
    /// bitmap of its page; any other result is stale and dropped.
    pub open spec fn absorbed(cache: CacheModel, results: Seq<RenderResult>, scale: u64) -> CacheModel
        decreases results.len(),
    {
        if results.len() == 0 {
            cache
        } else {
            let before = Self::absorbed(cache, results.drop_last(), scale);
            let last = results.last();
            if scale_eq(last.scale, scale) {
                before.with_bitmap(last.idx, last.scale, last.img@)
            } else {
                before
            }
        }
    }

    /// Whether one of the results was rendered at `scale`, up to the
    /// tolerance.
    pub open spec fn any_fresh(results: Seq<RenderResult>, scale: u64) -> bool {
        exists|i: int| 0 <= i < results.len() && scale_eq((#[trigger] results[i]).scale, scale)
    }

    /// The pages that the results are of.
    pub open spec fn result_pages(results: Seq<RenderResult>) -> Set<usize> {
        Set::new(|p: usize| exists|i: int| 0 <= i < results.len() && (#[trigger] results[i]).idx == p)
    }

    /// The state after rendering results have arrived: none of their pages
    /// is under way any longer, and the results rendered at the current
    /// render scale are in the cache.
    pub open spec fn after_results(self, results: Seq<RenderResult>) -> AppModel {
        AppModel {
            cache: Self::absorbed(self.cache, results, self.render_scale()),
            pending: self.pending.difference(Self::result_pages(results)),
            ..self
        }
    }

    /// The cells that one page can take: its share of the columns, and the
    /// usable rows.
    pub open spec fn page_area(self) -> CellRect {
        CellRect {
            x: 0,
            y: 0,
            width: (self.term_cols as nat / self.layout.across()) as u16,
            height: self.usable_rows(),
        }
    }

    /// The cells that the bitmap of `page` takes when it is shown centred
    /// in the cells of one page.
    pub open spec fn prewarm_area(self, page: usize) -> CellRect {
        aligned_area(
            self.cache.bitmaps[page].width as u32,
            self.cache.bitmaps[page].height as u32,
            self.page_area(),
            self.cell->0,
            self.zoom,
            HAlign::Center,
        )
    }

    /// Whether a visible page of the document has no bitmap at the render
    /// scale yet.
    pub open spec fn pending_visible(self) -> bool {
        self.cell is Some && exists|i: nat|
            i < self.layout.across() && self.current_page + i < self.page_count
                && !self.cache.has_bitmap_at(
                #[trigger] ((self.current_page + i) as usize),
                self.render_scale(),
            )
    }

    /// The first page of the window that is worth prewarming, the last one
    /// behind it.
    pub open spec fn prewarm_start(self) -> int {
        if self.current_page >= LOOKAROUND {
            self.current_page - LOOKAROUND
        } else {
            0
        }
    }

    /// The end of the window that is worth prewarming: past the visible
    /// pages and the lookaround ahead, or the end of the document.
    pub open spec fn prewarm_end(self) -> int {
        if self.current_page + self.layout.across() + LOOKAROUND < self.page_count {
            self.current_page + self.layout.across() + LOOKAROUND
        } else {
            self.page_count as int
        }
    }

    /// The first page from `from` up to `to` that has a bitmap and no
    /// display object for the current mode.
    pub open spec fn first_unwarmed(self, from: int, to: int) -> Option<usize>
        decreases to - from,
    {
        if from >= to {
            None
        } else if 0 <= from <= usize::MAX && self.cache.needs_display(from as usize, self.dark_mode) {
            Some(from as usize)
        } else {
            self.first_unwarmed(from + 1, to)
        }
    }

    /// The page whose display object an idle tick encodes: the first one
    /// from the current page on that lacks it, else the first one behind.
    pub open spec fn prewarm_target(self) -> Option<usize> {
        if self.cell is None {
            None
        } else {
            match self.first_unwarmed(self.current_page as int, self.prewarm_end()) {
                Some(p) => Some(p),
                None => self.first_unwarmed(self.prewarm_start(), self.current_page as int),
            }
        }
    }

    /// Whether a page of the prewarming window has a bitmap and no display
    /// object for the current mode.
    pub open spec fn nearby_unwarmed(self) -> bool {
        self.cell is Some && exists|p: usize|
            self.prewarm_start() <= p < self.prewarm_end() && #[trigger] self.cache.needs_display(
                p,
                self.dark_mode,
            )
    }

    /// Whether `after` is the state once the display object of `page` was
    /// looked up for the current mode, zoom and pan, in the cells that the
    /// page takes, and encoded where it was missing. Nothing but the cache
    /// changes; a page without a bitmap changes nothing at all. Whether a
    /// missing object is there afterwards is for the encoder to decide,
    /// except that a picture it cannot take leaves none.
    pub open spec fn warmed_page(self, page: usize, after: AppModel) -> bool {
        let pan = (self.pan_x, self.pan_y);
        let ready = self.cache.prepared(page, self.dark_mode, self.zoom, pan);
        &&& after == (AppModel { cache: after.cache, ..self })
        &&& after.cache.wf()
        &&& if self.cell is Some && self.cache.bitmaps.contains_key(page) {
            &&& after.cache == ready.stored(
                page,
                self.dark_mode,
                after.cache.display(page, self.dark_mode),
            )
            &&& self.cache.synced(self.zoom, pan).needs_display(page, self.dark_mode) && !encodable(
                ready.display_source(page, self.dark_mode),
                self.prewarm_area(page),
                self.cell->0,
            ) ==> after.cache.display(page, self.dark_mode) is None
            &&& !self.cache.synced(self.zoom, pan).needs_display(page, self.dark_mode)
                ==> after.cache == self.cache.synced(self.zoom, pan)
        } else {
            after.cache == self.cache
        }
    }

    /// Where the pages just after the visible ones end, as far as display
    /// objects are encoded at once: past the visible pages and a few more,
    /// or at the end of the document.
    pub open spec fn warm_end(self) -> int {
        if self.current_page + self.layout.across() + PREWARM_AHEAD < self.page_count {
            self.current_page + self.layout.across() + PREWARM_AHEAD
        } else {
            self.page_count as int
        }
    }

    /// Whether `after` is what encoding display objects for the pages from
    /// `from` up to `to` can leave of the state `self`, whatever the encoder
    /// answered. Nothing but the cache changes, and in it neither bitmaps
    /// nor scales nor texts. Either the cache is untouched, or it is synced
    /// to the current zoom and pan: then it holds every display object and
    /// inverted bitmap that was valid for them before, and what it holds
    /// beyond those belongs to the current mode and to pages from `from` up
    /// to `to` that have a bitmap.
    pub open spec fn warmed(self, after: AppModel, from: int, to: int) -> bool {
        let was = self.cache.synced(self.zoom, (self.pan_x, self.pan_y));
        &&& after == (AppModel { cache: after.cache, ..self })
        &&& after.cache.wf()
        &&& after.cache.bitmaps == self.cache.bitmaps
        &&& after.cache.scales == self.cache.scales
        &&& after.cache.texts == self.cache.texts
        &&& after.cache == self.cache || {
            &&& after.cache.zoom == self.zoom
            &&& after.cache.pan == (self.pan_x, self.pan_y)
            &&& forall|p: usize, dark: bool| #[trigger]
                was.display(p, dark) is Some ==> after.cache.display(p, dark) == was.display(
                    p,
                    dark,
                )
            &&& forall|p: usize, dark: bool| #[trigger]
                after.cache.display(p, dark) is Some && was.display(p, dark) is None ==> dark
                    == self.dark_mode && from <= p < to && self.cache.bitmaps.contains_key(p)
            &&& forall|p: usize| #[trigger]
                was.inverted.contains_key(p) ==> after.cache.inverted.contains_key(p)
            &&& forall|p: usize| #[trigger]
                after.cache.inverted.contains_key(p) && !was.inverted.contains_key(p)
                    ==> self.dark_mode && from <= p < to
        }
    }

    /// Whether a page from `from` up to `to` has a bitmap.
    pub open spec fn window_has_bitmap(self, from: int, to: int) -> bool {
        exists|p: usize| from <= p < to && #[trigger] self.cache.bitmaps.contains_key(p)
    }

    /// Whether `after` is the state once the display object of every page
    /// from `from` up to `to` was looked up for the current mode, zoom and
    /// pan, and encoded where it was missing. What encoding can leave holds
    /// (`warmed`). Without an encoder, or where none of those pages has a
    /// bitmap, nothing has changed. Else the cache is synced to the current
    /// zoom and pan, and each of those pages that has a bitmap was gone
    /// through: it has its display object, unless the encoder did not make
    /// one, and in dark mode it has at least its inverted bitmap; and a page
    /// whose picture the encoder cannot take has no display object.
    pub open spec fn warmed_through(self, after: AppModel, from: int, to: int) -> bool {
        let pan = (self.pan_x, self.pan_y);
        let was = self.cache.synced(self.zoom, pan);
        &&& self.warmed(after, from, to)
        &&& if self.cell is Some && self.window_has_bitmap(from, to) {
            &&& after.cache.zoom == self.zoom
            &&& after.cache.pan == pan
            &&& forall|p: usize|
                from <= p < to && #[trigger] self.cache.bitmaps.contains_key(p) ==> {
                    &&& after.cache.display(p, self.dark_mode) is Some || (self.dark_mode
                        && after.cache.inverted.contains_key(p))
                        || !self.dark_mode
                    &&& was.display(p, self.dark_mode) is Some ==> after.cache.display(
                        p,
                        self.dark_mode,
                    ) == was.display(p, self.dark_mode)
                    &&& was.display(p, self.dark_mode) is None && !encodable(
                        was.display_source(p, self.dark_mode),
                        self.prewarm_area(p),
                        self.cell->0,
                    ) ==> after.cache.display(p, self.dark_mode) is None
                }
        } else {
            after.cache == self.cache
        }
    }

    /// What the request step does. Without an encoder nothing is requested.
    pub open spec fn after_request_step(self) -> (AppModel, Seq<RenderRequest>) {
        if self.cell is None {
            (self, Seq::empty())
        } else {
            self.scheduled(self.schedule_len())
        }
    }

    /// The state with nothing under way and the pan back in the centre, at
    /// a new zoom: results that are still to come were asked for at the old
    /// scale and will be dropped as stale.
    pub open spec fn zoomed_to(self, zoom: u32) -> AppModel {
        AppModel { zoom, pending: Set::empty(), pan_x: 0, pan_y: 0, ..self }
    }

    /// A pan one step further from `pan`, kept between the two edges.
    pub open spec fn pan_stepped(pan: i32, forward: bool) -> i32 {
        if forward {
            if pan + PAN_STEP > PAN_LIMIT {
                PAN_LIMIT
            } else {
                (pan + PAN_STEP) as i32
            }
        } else {
            if pan - PAN_STEP < -PAN_LIMIT {
                (-PAN_LIMIT) as i32
            } else {
                (pan - PAN_STEP) as i32
            }
        }
    }

    /// The page that a typed page number leads to: the page of that number,
    /// counted from one, if the document has it; else the current page.
    pub open spec fn goto_page(self) -> usize {
        match parsed_number(self.goto_input) {
            Some(number) => if 1 <= number <= self.page_count {
                (number - 1) as usize
            } else {
                self.current_page
            },
            None => self.current_page,
        }
    }

    /// The state after the user's message, and the requests to send.
    pub open spec fn after_message(self, msg: Message) -> (AppModel, Seq<RenderRequest>) {
        let none = Seq::<RenderRequest>::empty();
        match msg {
            Message::Quit => (AppModel { should_quit: true, ..self }, none),
            Message::NextPage => (
                AppModel {
                    current_page: if self.current_page + 1 < self.page_count {
                        (self.current_page + 1) as usize
                    } else {
                        self.current_page
                    },
                    text_scroll: 0,
                    ..self
                },
                none,
            ),
            Message::PrevPage => (
                AppModel {
                    current_page: if self.current_page > 0 {
                        (self.current_page - 1) as usize
                    } else {
                        0
                    },
                    text_scroll: 0,
                    ..self
                },
                none,
            ),
            Message::FirstPage => (AppModel { current_page: 0, text_scroll: 0, ..self }, none),
            Message::LastPage => (
                AppModel {
                    current_page: if self.page_count > 0 {
                        (self.page_count - 1) as usize
                    } else {
                        0
                    },
                    text_scroll: 0,
                    ..self
                },
                none,
            ),
            Message::ZoomIn => (
                self.zoomed_to(
                    if self.zoom + ZOOM_STEP > ZOOM_MAX {
                        ZOOM_MAX
                    } else {
                        (self.zoom + ZOOM_STEP) as u32
                    },
                ),
                none,
            ),
            Message::ZoomOut => (
                self.zoomed_to(
                    if self.zoom - ZOOM_STEP < ZOOM_MIN {
                        ZOOM_MIN
                    } else {
                        (self.zoom - ZOOM_STEP) as u32
                    },
                ),
                none,
            ),
            Message::ZoomReset => (self.zoomed_to(ZOOM_UNIT), none),
            Message::ScrollUp => (
                if self.text_mode {
                    AppModel {
                        text_scroll: if self.text_scroll >= TEXT_SCROLL_STEP {
                            (self.text_scroll - TEXT_SCROLL_STEP) as usize
                        } else {
                            0
                        },
                        ..self
                    }
                } else if self.zoom > ZOOM_UNIT {
                    AppModel { pan_y: Self::pan_stepped(self.pan_y, false), ..self }
                } else {
                    self
                },
                none,
            ),
            Message::ScrollDown => (
                if self.text_mode {
                    AppModel {
                        text_scroll: if self.text_scroll + TEXT_SCROLL_STEP > usize::MAX {
                            usize::MAX
                        } else {
                            (self.text_scroll + TEXT_SCROLL_STEP) as usize
                        },
                        ..self
                    }
                } else if self.zoom > ZOOM_UNIT {
                    AppModel { pan_y: Self::pan_stepped(self.pan_y, true), ..self }
                } else {
                    self
                },
                none,
            ),
            Message::ScrollLeft => (
                if self.zoom > ZOOM_UNIT {
                    AppModel { pan_x: Self::pan_stepped(self.pan_x, false), ..self }
                } else {
                    self
                },
                none,
            ),
            Message::ScrollRight => (
                if self.zoom > ZOOM_UNIT {
                    AppModel { pan_x: Self::pan_stepped(self.pan_x, true), ..self }
                } else {
                    self
                },
                none,
            ),
            Message::CycleLayout => (
                AppModel {
                    layout: self.layout.next(),
                    cache: self.cache.without_displays(),
                    ..self
                },
                none,
            ),
            Message::ToggleDarkMode => (AppModel { dark_mode: !self.dark_mode, ..self }, none),
            Message::ToggleFullscreen => (
                AppModel {
                    fullscreen: !self.fullscreen,
                    cache: self.cache.cleared(),
                    pending: Set::empty(),
                    ..self
                },
                none,
            ),
            Message::ToggleTextMode => if self.cell is None {
                (self, none)
            } else if self.text_mode {
                (AppModel {
                    text_mode: false,
                    text_scroll: 0,
                    cache: self.cache.cleared(),
                    pending: Set::empty(),
                    ..self
                }).after_request_step()
            } else {
                (AppModel { text_mode: true, text_scroll: 0, ..self }, none)
            },
            Message::EnterGoto => (
                AppModel { goto_mode: true, goto_input: Seq::empty(), ..self },
                none,
            ),
            Message::GotoInput(c) => (
                if self.goto_input.len() < GOTO_LIMIT {
                    AppModel { goto_input: self.goto_input.push(c), ..self }
                } else {
                    self
                },
                none,
            ),
            Message::GotoBackspace => (
                if self.goto_input.len() > 0 {
                    AppModel { goto_input: self.goto_input.drop_last(), ..self }
                } else {
                    self
                },
                none,
            ),
            Message::GotoConfirm => (
                AppModel {
                    current_page: self.goto_page(),
                    goto_mode: false,
                    goto_input: Seq::empty(),
                    text_scroll: 0,
                    ..self
                },
                none,
            ),
            Message::GotoCancel => (
                AppModel { goto_mode: false, goto_input: Seq::empty(), ..self },
                none,
            ),
        }
    }

    /// The message that a key stands for: while a page number is typed the
    /// keys edit the number, else they steer the viewer.
    pub open spec fn message_of(self, key: Key) -> Option<Message> {
        if self.goto_mode {
            goto_key_message(key)
        } else {
            key_message(key)
        }
    }

    /// The state after a key press, and the requests to send. A key that
    /// stands for nothing changes nothing.
    pub open spec fn after_key(self, key: Key) -> (AppModel, Seq<RenderRequest>) {
        match self.message_of(key) {
            Some(msg) => self.after_message(msg),
            None => (self, Seq::empty()),
        }
    }

    /// The state after the terminal has changed its size: the cache is
    /// empty and nothing counts as under way, since scale and area change.
    pub open spec fn after_resize(self, cols: u16, rows: u16) -> AppModel {
        AppModel {
            term_cols: cols,
            term_rows: rows,
            cache: self.cache.cleared(),
            pending: Set::empty(),
            ..self
        }
    }

    /// The state after a round of input, and the requests to send: where
    /// something changed and pages are shown, the request step is gone
    /// through and the pages far from the current one leave the cache.
    pub open spec fn after_events(self, dirty: bool) -> (AppModel, Seq<RenderRequest>) {
        if dirty && !self.text_mode {
            let (state, sent) = self.after_request_step();
            (
                AppModel { cache: state.cache.evicted(state.current_page, EVICT_RADIUS), ..state },
                sent,
            )
        } else {
            (self, Seq::empty())
        }
    }

    /// How long the loop may wait for input, in milliseconds.
    pub open spec fn poll_timeout(self) -> u64 {
        if self.text_mode {
            SETTLED_WAIT_MS
        } else if self.pending_visible() {
            FRAME_WAIT_MS
        } else if self.nearby_unwarmed() {
            IDLE_WAIT_MS
        } else {
            SETTLED_WAIT_MS
        }
    }
}

impl App {
    /// The viewer's state keeps its rules.
    pub open spec fn wf(&self) -> bool {
        self@.wf()
    }

    /// Makes the viewer's state for a document of `page_count` pages whose
    /// first page has the extent `page_bounds`, in thousandths of a point;
    /// a letter page is taken where the document did not tell. The start
    /// page is the configured one, or the last page if the document is
    /// shorter. Without an encoder the viewer starts in text mode.
    pub fn new(
        page_count: usize,
        page_bounds: Option<(u32, u32)>,
        picker: Option<Picker>,
        term_cols: u16,
        term_rows: u16,
        config: &AppConfig,
    ) -> (r: Result<App, AppError>)
        ensures
            page_count == 0 <==> r is Err,
            r is Err ==> r == Err::<App, AppError>(AppError::NoPages),
            r is Ok ==> r->Ok_0.wf() && r->Ok_0.picker == picker && r->Ok_0@ == (AppModel {
                cache: CacheModel::empty(),
                cell: match picker {
                    Some(p) => Some(cell_size(p)),
                    None => None,
                },
                current_page: if config.start_page < page_count {
                    config.start_page
                } else {
                    (page_count - 1) as usize
                },
                page_count,
                zoom: ZOOM_UNIT,
                pan_x: 0,
                pan_y: 0,
                layout: config.layout,
                dark_mode: config.dark_mode,
                fullscreen: config.fullscreen,
                goto_mode: false,
                goto_input: Seq::empty(),
                text_mode: config.text_mode || picker is None,
                text_scroll: 0,
                term_cols,
                term_rows,
                page_bounds: match page_bounds {
                    Some(b) => b,
                    None => (LETTER_WIDTH, LETTER_HEIGHT),
                },
                pending: Set::empty(),
                should_quit: false,
            }),
    {
        if page_count == 0 {
            return Err(AppError::NoPages);
        }
        let bounds: (u32, u32) = match page_bounds {
            Some(b) => b,
            None => (LETTER_WIDTH, LETTER_HEIGHT),
        };
        let start_page: usize = if config.start_page < page_count {
            config.start_page
        } else {
            page_count - 1
        };
        let text_mode: bool = config.text_mode || picker.is_none();
        Ok(
            App {
                cache: PageCache::new(),
                picker,
                current_page: start_page,
                page_count,
                zoom: ZOOM_UNIT,
                pan_x: 0,
                pan_y: 0,
                layout: config.layout,
                dark_mode: config.dark_mode,
                fullscreen: config.fullscreen,
                goto_mode: false,
                goto_input: Vec::new(),
                text_mode,
                text_scroll: 0,
                term_cols,
                term_rows,
                page_bounds: bounds,
                pending: HashSet::new(),
                should_quit: false,
            },
        )
    }

    /// The rows that pages can use.
    pub fn usable_rows(&self) -> (r: u16)
        ensures
            r == self@.usable_rows(),
    {
        if self.fullscreen || self.term_rows == 0 {
            self.term_rows
        } else {
            self.term_rows - 1
        }
    }

    /// The scale that pages are rendered at, in millionths of a pixel per
    /// point.
    pub fn render_scale(&self) -> (r: u64)
        requires
            self.wf(),
        ensures
            r == self@.render_scale(),
    {
        match &self.picker {
            Some(picker) => {
                let cell = font_size(picker);
                fit_scale(
                    self.term_cols,
                    self.usable_rows(),
                    cell,
                    self.layout,
                    self.page_bounds,
                    self.zoom,
                )
            },
            None => SCALE_UNIT,
        }
    }

    /// Takes in the results that the workers have sent: none of their pages
    /// is under way any longer; a result rendered at the current render
    /// scale becomes the bitmap of its page, any other is stale and dropped.
    /// Tells whether a result was taken into the cache. Without an encoder
    /// nothing is taken in.
    pub fn absorb_results(&mut self, results: Vec<RenderResult>) -> (received: bool)
        requires
            old(self).wf(),
        ensures
            final(self).wf(),
            old(self)@.cell is Some ==> final(self)@ == old(self)@.after_results(results@)
                && received == AppModel::any_fresh(results@, old(self)@.render_scale()),
            old(self)@.cell is None ==> final(self)@ == old(self)@ && !received,
    {
        if self.picker.is_none() {
            return false;
        }
        let scale: u64 = self.render_scale();
        let ghost start = self@;
        let ghost all = results@;
        let mut received: bool = false;
        proof {
            assert(all.take(0) =~= Seq::<RenderResult>::empty());
            assert(start.pending.difference(AppModel::result_pages(all.take(0))) =~= start.pending);
        }
        for r in it: results.into_iter()
            invariant
                it.seq() == all,
                scale == start.render_scale(),
                start.cell is Some,
                self.wf(),
                self@ == (AppModel {
                    cache: AppModel::absorbed(start.cache, all.take(it.index()), scale),
                    pending: start.pending.difference(
                        AppModel::result_pages(all.take(it.index())),
                    ),
                    ..start
                }),
                received == AppModel::any_fresh(all.take(it.index()), scale),
        {
            let ghost seen = all.take(it.index());
            let ghost grown = all.take(it.index() + 1);
            proof {
                assert(r == all[it.index()]);
                assert(grown.drop_last() =~= seen);
                assert(grown.last() == r);
                assert(AppModel::result_pages(grown) =~= AppModel::result_pages(seen).insert(
                    r.idx,
                )) by {
                    assert forall|p: usize|
                        AppModel::result_pages(grown).contains(p) <==> AppModel::result_pages(
                            seen,
                        ).insert(r.idx).contains(p) by {
                        if AppModel::result_pages(grown).contains(p) {
                            let i = choose|i: int|
                                0 <= i < grown.len() && (#[trigger] grown[i]).idx == p;
                            if i < seen.len() {
                                assert(seen[i].idx == p);
                            }
                        }
                        if AppModel::result_pages(seen).contains(p) {
                            let i = choose|i: int|
                                0 <= i < seen.len() && (#[trigger] seen[i]).idx == p;
                            assert(grown[i].idx == p);
                        }
                        if p == r.idx {
                            assert(grown[grown.len() - 1].idx == p);
                        }
                    }
                }
                assert(AppModel::any_fresh(grown, scale) == (AppModel::any_fresh(seen, scale)
                    || scale_eq(r.scale, scale))) by {
                    if AppModel::any_fresh(grown, scale) {
                        let i = choose|i: int|
                            0 <= i < grown.len() && scale_eq((#[trigger] grown[i]).scale, scale);
                        if i < seen.len() {
                            assert(scale_eq(seen[i].scale, scale));
                        }
                    }
                    if AppModel::any_fresh(seen, scale) {
                        let i = choose|i: int|
                            0 <= i < seen.len() && scale_eq((#[trigger] seen[i]).scale, scale);
                        assert(scale_eq(grown[i].scale, scale));
                    }
                    if scale_eq(r.scale, scale) {
                        assert(scale_eq(grown[grown.len() - 1].scale, scale));
                    }
                }
            }
            self.pending.remove(&r.idx);
            if scales_match(r.scale, scale) {
                self.cache.insert_image(r.idx, r.scale, r.img);
                received = true;
            }
            proof {
                assert(self@.pending =~= start.pending.difference(AppModel::result_pages(grown)));
            }
        }
        proof {
            assert(all.take(all.len() as int) =~= all);
        }
        received
    }

    /// The cells that one page can take.
    pub fn page_area(&self) -> (r: CellRect)
        ensures
            r == self@.page_area(),
            r.fits(),
    {
        let n: usize = self.layout.pages_across();
        CellRect { x: 0, y: 0, width: self.term_cols / (n as u16), height: self.usable_rows() }
    }

    /// Looks up the display object of a page for the current mode, zoom and
    /// pan, and has it encoded and cached where it is missing.
    pub fn warm_page(&mut self, idx: usize)
        requires
            old(self).wf(),
        ensures
            final(self).wf(),
            old(self)@.warmed_page(idx, final(self)@),
            old(self)@.warmed(final(self)@, idx as int, idx + 1),
    {
        let page_area = self.page_area();
        match &self.picker {
            Some(picker) => {
                match self.cache.image_dims(idx) {
                    Some((w, h)) => {
                        let cell = font_size(picker);
                        let render_area = aligned_image_area(
                            w,
                            h,
                            page_area,
                            cell,
                            self.zoom,
                            HAlign::Center,
                        );
                        let _ = self.cache.get_protocol(
                            idx,
                            self.dark_mode,
                            self.zoom,
                            (self.pan_x, self.pan_y),
                            picker,
                            render_area,
                        );
                    },
                    None => {},
                }
            },
            None => {},
        }
    }

    /// Encodes the display objects of the visible pages and of the pages
    /// just after them, wherever a bitmap is there and the object is not.
    pub fn prewarm_visible(&mut self)
        requires
            old(self).wf(),
        ensures
            final(self).wf(),
            old(self)@.warmed_through(
                final(self)@,
                old(self)@.current_page as int,
                old(self)@.warm_end(),
            ),
    {
        let n: usize = self.layout.pages_across();
        let span: usize = n + PREWARM_AHEAD;
        let end: usize = if self.page_count - self.current_page > span {
            self.current_page + span
        } else {
            self.page_count
        };
        let ghost start = self@;
        let mut idx: usize = self.current_page;
        while idx < end
            invariant
                start.current_page <= idx <= end,
                end == start.warm_end(),
                start.cache.wf(),
                self.wf(),
                start.warmed_through(self@, start.current_page as int, idx as int),
            decreases end - idx,
        {
            let ghost before = self@;
            self.warm_page(idx);
            proof {
                lemma_warmed_step(start, before, self@, start.current_page as int, idx);
            }
            idx = idx + 1;
        }
    }

    /// Takes in the results that the workers have sent, and where one was
    /// taken into the cache, encodes the display objects of the visible
    /// pages and of the pages just after them. Tells whether a result was
    /// taken into the cache.
    pub fn process_render_results(&mut self, results: Vec<RenderResult>) -> (received: bool)
        requires
            old(self).wf(),
        ensures
            final(self).wf(),
            received == (old(self)@.cell is Some && AppModel::any_fresh(
                results@,
                old(self)@.render_scale(),
            )),
            old(self)@.cell is None ==> final(self)@ == old(self)@,
            old(self)@.cell is Some && !received ==> final(self)@ == old(self)@.after_results(
                results@,
            ),
            old(self)@.cell is Some && received ==> old(self)@.after_results(
                results@,
            ).warmed_through(final(self)@, old(self)@.current_page as int, old(self)@.warm_end()),
    {
        let received: bool = self.absorb_results(results);
        if received {
            self.prewarm_visible();
        }
        received
    }

    /// Whether a visible page still waits for its bitmap.
    pub fn has_pending_visible(&self) -> (r: bool)
        requires
            self.wf(),
        ensures
            r == self@.pending_visible(),
    {
        if self.picker.is_none() {
            return false;
        }
        let scale: u64 = self.render_scale();
        let n: usize = self.layout.pages_across();
        let mut i: usize = 0;
        while i < n
            invariant
                0 <= i <= n,
                n == self@.layout.across(),
                self.wf(),
                self@.cell is Some,
                scale == self@.render_scale(),
                forall|j: nat|
                    j < i && self.current_page + j < self.page_count ==> self@.cache.has_bitmap_at(
                        #[trigger] ((self.current_page + j) as usize),
                        scale,
                    ),
            decreases n - i,
        {
            if self.page_count - self.current_page > i {
                let idx: usize = self.current_page + i;
                if !self.cache.has_image_at_scale(idx, scale) {
                    assert(self.current_page + (i as nat) < self.page_count
                        && !self@.cache.has_bitmap_at(
                        ((self.current_page + (i as nat)) as usize),
                        scale,
                    ));
                    return true;
                }
            }
            i = i + 1;
        }
        false
    }

    /// The first page from `from` up to `to` that has a bitmap and no
    /// display object for the current mode.
    fn first_unwarmed(&self, from: usize, to: usize) -> (r: Option<usize>)
        ensures
            r == self@.first_unwarmed(from as int, to as int),
            r is Some ==> from <= r->0 < to && self@.cache.needs_display(r->0, self.dark_mode),
            r is None ==> forall|p: usize|
                from <= p < to ==> !#[trigger] self@.cache.needs_display(p, self.dark_mode),
    {
        let mut idx: usize = from;
        while idx < to
            invariant
                from <= idx,
                idx <= to || from >= to,
                self@.first_unwarmed(from as int, to as int) == self@.first_unwarmed(
                    idx as int,
                    to as int,
                ),
                forall|p: usize|
                    from <= p < idx ==> !#[trigger] self@.cache.needs_display(p, self.dark_mode),
            decreases to - idx,
        {
            if self.cache.image_dims(idx).is_some() && !self.cache.has_protocol(
                idx,
                self.dark_mode,
            ) {
                return Some(idx);
            }
            idx = idx + 1;
        }
        None
    }

    /// The first page of the prewarming window and its end.
    fn prewarm_window(&self) -> (r: (usize, usize))
        requires
            self.wf(),
        ensures
            r.0 == self@.prewarm_start(),
            r.1 == self@.prewarm_end(),
            r.0 <= self.current_page < r.1,
    {
        let n: usize = self.layout.pages_across();
        let start: usize = if self.current_page >= LOOKAROUND {
            self.current_page - LOOKAROUND
        } else {
            0
        };
        let end: usize = if self.page_count - self.current_page > n + LOOKAROUND {
            self.current_page + n + LOOKAROUND
        } else {
            self.page_count
        };
        (start, end)
    }

    /// The page whose display object an idle tick would encode, if there
    /// is one: pages from the current one on come before pages behind it.
    pub fn prewarm_target(&self) -> (r: Option<usize>)
        requires
            self.wf(),
        ensures
            r == self@.prewarm_target(),
            r is Some <==> self@.nearby_unwarmed(),
            r is Some ==> self@.prewarm_start() <= r->0 < self@.prewarm_end()
                && self@.cache.needs_display(r->0, self.dark_mode),
    {
        if self.picker.is_none() {
            return None;
        }
        let (start, end) = self.prewarm_window();
        match self.first_unwarmed(self.current_page, end) {
            Some(p) => Some(p),
            None => self.first_unwarmed(start, self.current_page),
        }
    }

    /// Whether a page near the current one has a bitmap and no display
    /// object for the current mode.
    pub fn has_nearby_unwarmed_protocol(&self) -> (r: bool)
        requires
            self.wf(),
        ensures
            r == self@.nearby_unwarmed(),
            r == self@.prewarm_target() is Some,
    {
        self.prewarm_target().is_some()
    }

    /// Encodes one display object in idle time: that of the prewarming
    /// target, if there is one.
    pub fn prewarm_one_nearby_protocol(&mut self)
        requires
            old(self).wf(),
        ensures
            final(self).wf(),
            match old(self)@.prewarm_target() {
                Some(page) => old(self)@.warmed_page(page, final(self)@),
                None => final(self)@ == old(self)@,
            },
    {
        match self.prewarm_target() {
            Some(idx) => {
                self.warm_page(idx);
            },
            None => {},
        }
    }

    /// Sets a new zoom: nothing counts as under way any longer, and the pan
    /// goes back to the centre.
    fn zoom_to(&mut self, zoom: u32)
        requires
            old(self).wf(),
            zoom_in_range(zoom),
        ensures
            final(self).wf(),
            final(self)@ == old(self)@.zoomed_to(zoom),
    {
        self.zoom = zoom;
        self.pending.clear();
        self.pan_x = 0;
        self.pan_y = 0;
    }

    /// Applies the user's message to the state, and hands out the requests
    /// to send to the workers.
    pub fn update(&mut self, msg: Message) -> (r: Vec<RenderRequest>)
        requires
            old(self).wf(),
        ensures
            final(self).wf(),
            (final(self)@, r@) == old(self)@.after_message(msg),
    {
        let mut out: Vec<RenderRequest> = Vec::new();
        match msg {
            Message::Quit => {
                self.should_quit = true;
            },
            Message::NextPage => {
                if self.page_count - self.current_page > 1 {
                    self.current_page = self.current_page + 1;
                }
                self.text_scroll = 0;
            },
            Message::PrevPage => {
                if self.current_page > 0 {
                    self.current_page = self.current_page - 1;
                }
                self.text_scroll = 0;
            },
            Message::FirstPage => {
                self.current_page = 0;
                self.text_scroll = 0;
            },
            Message::LastPage => {
                self.current_page = self.page_count - 1;
                self.text_scroll = 0;
            },
            Message::ZoomIn => {
                let zoom: u32 = if self.zoom + ZOOM_STEP > ZOOM_MAX {
                    ZOOM_MAX
                } else {
                    self.zoom + ZOOM_STEP
                };
                self.zoom_to(zoom);
            },
            Message::ZoomOut => {
                let zoom: u32 = if self.zoom < ZOOM_MIN + ZOOM_STEP {
                    ZOOM_MIN
                } else {
                    self.zoom - ZOOM_STEP
                };
                self.zoom_to(zoom);
            },
            Message::ZoomReset => {
                self.zoom_to(ZOOM_UNIT);
            },
            Message::ScrollUp => {
                if self.text_mode {
                    self.text_scroll = if self.text_scroll >= TEXT_SCROLL_STEP {
                        self.text_scroll - TEXT_SCROLL_STEP
                    } else {
                        0
                    };
                } else if self.zoom > ZOOM_UNIT {
                    self.pan_y = step_pan(self.pan_y, false);
                }
            },
            Message::ScrollDown => {
                if self.text_mode {
                    self.text_scroll = if self.text_scroll > usize::MAX - TEXT_SCROLL_STEP {
                        usize::MAX
                    } else {
                        self.text_scroll + TEXT_SCROLL_STEP
                    };
                } else if self.zoom > ZOOM_UNIT {
                    self.pan_y = step_pan(self.pan_y, true);
                }
            },
            Message::ScrollLeft => {
                if self.zoom > ZOOM_UNIT {
                    self.pan_x = step_pan(self.pan_x, false);
                }
            },
            Message::ScrollRight => {
                if self.zoom > ZOOM_UNIT {
                    self.pan_x = step_pan(self.pan_x, true);
                }
            },
            Message::CycleLayout => {
                self.layout = self.layout.cycle();
                self.cache.invalidate_protocols();
            },
            Message::ToggleDarkMode => {
                self.dark_mode = !self.dark_mode;
            },
            Message::ToggleFullscreen => {
                self.fullscreen = !self.fullscreen;
                self.cache.clear();
                self.pending.clear();
            },
            Message::ToggleTextMode => {
                if self.picker.is_some() {
                    self.text_mode = !self.text_mode;
                    self.text_scroll = 0;
                    if !self.text_mode {
                        self.cache.clear();
                        self.pending.clear();
                        out = self.request_visible_pages();
                    }
                }
            },
            Message::EnterGoto => {
                self.goto_mode = true;
                self.goto_input.clear();
            },
            Message::GotoInput(c) => {
                if self.goto_input.len() < GOTO_LIMIT {
                    self.goto_input.push(c);
                }
            },
            Message::GotoBackspace => {
                if self.goto_input.len() > 0 {
                    self.goto_input.pop();
                }
            },
            Message::GotoConfirm => {
                match parse_number(&self.goto_input) {
                    Some(number) => {
                        if number >= 1 && number <= self.page_count {
                            self.current_page = number - 1;
                        }
                    },
                    None => {},
                }
                self.goto_mode = false;
                self.goto_input.clear();
                self.text_scroll = 0;
            },
            Message::GotoCancel => {
                self.goto_mode = false;
                self.goto_input.clear();
            },
        }
        out
    }

    /// Applies a key press: the key is mapped to the message it stands
    /// for, and the message is applied. Tells whether the key stood for a
    /// message, and hands out the requests to send to the workers.
    pub fn handle_key(&mut self, key: Key) -> (r: (bool, Vec<RenderRequest>))
        requires
            old(self).wf(),
        ensures
            final(self).wf(),
            r.0 == old(self)@.message_of(key) is Some,
            (final(self)@, r.1@) == old(self)@.after_key(key),
    {
        let msg: Option<Message> = if self.goto_mode {
            key_to_goto_message(key)
        } else {
            key_to_message(key)
        };
        match msg {
            Some(m) => {
                let out = self.update(m);
                (true, out)
            },
            None => (false, Vec::new()),
        }
    }

    /// Takes in a new terminal size: the cache is emptied and nothing
    /// counts as under way any longer.
    pub fn handle_resize(&mut self, cols: u16, rows: u16)
        requires
            old(self).wf(),
        ensures
            final(self).wf(),
            final(self)@ == old(self)@.after_resize(cols, rows),
    {
        self.term_cols = cols;
        self.term_rows = rows;
        self.cache.clear();
        self.pending.clear();
    }

    /// Ends a round of input. Where something changed and pages are shown,
    /// the request step is gone through and the pages far from the current
    /// one leave the cache. Hands out the requests to send to the workers.
    pub fn after_events(&mut self, dirty: bool) -> (r: Vec<RenderRequest>)
        requires
            old(self).wf(),
        ensures
            final(self).wf(),
            (final(self)@, r@) == old(self)@.after_events(dirty),
    {
        if dirty && !self.text_mode {
            let ghost start = self@;
            let out = self.request_visible_pages();
            proof {
                if start.cell is Some {
                    lemma_scheduled(start, start.schedule_len());
                }
            }
            self.cache.evict_distant(self.current_page, EVICT_RADIUS);
            out
        } else {
            Vec::new()
        }
    }

    /// How long the loop may wait for input, in milliseconds: a frame while
    /// a visible page is being rendered, a moment while display objects are
    /// left to encode, and long when nothing is left to do.
    pub fn poll_timeout_ms(&self) -> (r: u64)
        requires
            self.wf(),
        ensures
            r == self@.poll_timeout(),
    {
        if self.text_mode {
            SETTLED_WAIT_MS
        } else if self.has_pending_visible() {
            FRAME_WAIT_MS
        } else if self.has_nearby_unwarmed_protocol() {
            IDLE_WAIT_MS
        } else {
            SETTLED_WAIT_MS
        }
    }

    /// Uses a wait that brought no input: while pages are shown, one
    /// display object near the current page is encoded, if one is missing.
    pub fn idle_tick(&mut self)
        requires
            old(self).wf(),
        ensures
            final(self).wf(),
            old(self)@.text_mode ==> final(self)@ == old(self)@,
            !old(self)@.text_mode ==> match old(self)@.prewarm_target() {
                Some(page) => old(self)@.warmed_page(page, final(self)@),
                None => final(self)@ == old(self)@,
            },
    {
        if !self.text_mode {
            self.prewarm_one_nearby_protocol();
        }
    }

    /// Requests a page at a scale, unless the cache holds it at that scale
    /// or its rendering is under way. Hands out the request to send to the
    /// workers, if there is one.
    pub fn request_page(&mut self, idx: usize, scale: u64) -> (r: Option<RenderRequest>)
        ensures
            (final(self)@, r) == old(self)@.requested(idx, scale),
            old(self).wf() ==> final(self).wf(),
    {
        if self.picker.is_none() {
            return None;
        }
        if !self.cache.has_image_at_scale(idx, scale) && !self.pending.contains(&idx) {
            self.pending.insert(idx);
            Some(RenderRequest { idx, scale })
        } else {
            None
        }
    }

    /// Requests the page at one place of the schedule, if the document has
    /// that page, and adds the request to those to send.
    fn request_scheduled(
        &mut self,
        page: Option<usize>,
        scale: u64,
        out: &mut Vec<RenderRequest>,
        Ghost(start): Ghost<AppModel>,
        Ghost(k): Ghost<nat>,
    )
        requires
            old(self).wf(),
            start.cell is Some,
            scale == start.render_scale(),
            page == start.schedule_page(k),
            (old(self)@, old(out)@) == start.scheduled(k),
        ensures
            final(self).wf(),
            (final(self)@, final(out)@) == start.scheduled(k + 1),
    {
        match page {
            Some(idx) => {
                match self.request_page(idx, scale) {
                    Some(request) => {
                        out.push(request);
                    },
                    None => {},
                }
            },
            None => {},
        }
    }

    /// Goes through the request schedule: the visible pages first, then the
    /// pages around them, nearest first and the one ahead before the one
    /// behind. Hands out the requests to send to the workers, in that
    /// order; the pages requested count as under way from now on.
    pub fn request_visible_pages(&mut self) -> (r: Vec<RenderRequest>)
        requires
            old(self).wf(),
        ensures
            final(self).wf(),
            (final(self)@, r@) == old(self)@.after_request_step(),
    {
        let mut out: Vec<RenderRequest> = Vec::new();
        if self.picker.is_none() {
            return out;
        }
        let ghost start = self@;
        let scale: u64 = self.render_scale();
        let n: usize = self.layout.pages_across();
        let current: usize = self.current_page;
        let count: usize = self.page_count;
        let mut i: usize = 0;
        while i < n
            invariant
                0 <= i <= n,
                n == start.layout.across(),
                1 <= n <= 3,
                current < count,
                current == start.current_page,
                count == start.page_count,
                start.cell is Some,
                scale == start.render_scale(),
                self.wf(),
                (self@, out@) == start.scheduled(i as nat),
            decreases n - i,
        {
            let page: Option<usize> = if count - current > i {
                Some(current + i)
            } else {
                None
            };
            self.request_scheduled(page, scale, &mut out, Ghost(start), Ghost(i as nat));
            i = i + 1;
        }
        let mut offset: usize = 0;
        while offset < LOOKAROUND
            invariant
                0 <= offset <= LOOKAROUND,
                n == start.layout.across(),
                1 <= n <= 3,
                current == start.current_page,
                count == start.page_count,
                current < count,
                start.cell is Some,
                scale == start.render_scale(),
                self.wf(),
                (self@, out@) == start.scheduled((n + 2 * offset) as nat),
            decreases LOOKAROUND - offset,
        {
            let ahead: Option<usize> = if count - current > n + offset {
                Some(current + n + offset)
            } else {
                None
            };
            self.request_scheduled(
                ahead,
                scale,
                &mut out,
                Ghost(start),
                Ghost((n + 2 * offset) as nat),
            );
            let behind: Option<usize> = if current > offset {
                Some(current - offset - 1)
            } else {
                None
            };
            self.request_scheduled(
                behind,
                scale,
                &mut out,
                Ghost(start),
                Ghost((n + 2 * offset + 1) as nat),
            );
            offset = offset + 1;
        }
        out
    }
}

/// A page is requested once: after a request for it went out, asking for it
/// again, at the same scale or another, sends nothing and changes nothing,
/// until its result arrives.
pub proof fn lemma_request_not_repeated(m: AppModel, page: usize, scale: u64, again: u64)
    ensures
        m.requested(page, scale).0.requested(page, scale).1 is None,
        m.requested(page, scale).0.requested(page, scale).0 == m.requested(page, scale).0,
        m.requested(page, scale).1 is Some ==> m.requested(page, scale).0.requested(page, again).1
            is None,
        m.requested(page, scale).1 is Some ==> m.requested(page, scale).1 == Some(
            RenderRequest { idx: page, scale },
        ) && m.requested(page, scale).0.pending == m.pending.insert(page),
{
}

/// Every page of the schedule is a page of the document, and no page stands
/// at two places of it.
pub proof fn lemma_schedule_pages_distinct(m: AppModel, j: nat, k: nat)
    requires
        m.current_page < m.page_count,
        j < k,
        m.schedule_page(j) is Some,
        m.schedule_page(k) is Some,
    ensures
        m.schedule_page(j)->0 != m.schedule_page(k)->0,
        m.schedule_page(j)->0 < m.page_count,
        m.schedule_page(k)->0 < m.page_count,
{
}

/// On the first page of a document nothing is requested behind: every
/// place of the schedule that stands for a page behind the current one is
/// empty, and the places ahead hold the pages that follow one another from
/// the current page on, as far as the document goes.
pub proof fn lemma_schedule_on_first_page(m: AppModel, k: nat)
    requires
        m.current_page == 0,
        k < m.schedule_len(),
    ensures
        k >= m.layout.across() && (k - m.layout.across()) % 2 == 1 ==> m.schedule_page(k) is None,
        k < m.layout.across() ==> m.schedule_page(k) == (if k < m.page_count {
            Some(k as usize)
        } else {
            None
        }),
        k >= m.layout.across() && (k - m.layout.across()) % 2 == 0 ==> m.schedule_page(k) == (if
            m.layout.across() + (k - m.layout.across()) / 2 < m.page_count {
            Some((m.layout.across() + (k - m.layout.across()) / 2) as usize)
        } else {
            None
        }),
{
}

/// What going through the first `k` places of the schedule comes to. Only
/// the set of pages under way changes: it gains the pages requested. Each
/// request is for a page of the schedule that had to be requested at the
/// start, at the render scale, and no page is requested twice. Afterwards
/// every page at those places is cached at the render scale or under way.
pub proof fn lemma_scheduled(m: AppModel, k: nat)
    requires
        m.current_page < m.page_count,
        m.cell is Some,
    ensures
        m.scheduled(k).0 == (AppModel { pending: m.scheduled(k).0.pending, ..m }),
        forall|p: usize|
            m.scheduled(k).0.pending.contains(p) <==> m.pending.contains(p) || exists|i: int|
                0 <= i < m.scheduled(k).1.len() && (#[trigger] m.scheduled(k).1[i]).idx == p,
        forall|i: int|
            0 <= i < m.scheduled(k).1.len() ==> (#[trigger] m.scheduled(k).1[i]).scale
                == m.render_scale() && m.needs_request(
                m.scheduled(k).1[i].idx,
                m.render_scale(),
            ) && exists|j: nat| j < k && m.schedule_page(j) == Some(m.scheduled(k).1[i].idx),
        forall|i: int, j: int|
            0 <= i < j < m.scheduled(k).1.len() ==> (#[trigger] m.scheduled(k).1[i]).idx != (
            #[trigger] m.scheduled(k).1[j]).idx,
        forall|j: nat|
            j < k && m.schedule_page(j) is Some ==> m.cache.has_bitmap_at(
                (#[trigger] m.schedule_page(j))->0,
                m.render_scale(),
            ) || m.scheduled(k).0.pending.contains(m.schedule_page(j)->0),
    decreases k,
{
    if k > 0 {
        let prev = (k - 1) as nat;
        lemma_scheduled(m, prev);
        let (state, sent) = m.scheduled(prev);
        let (after, out) = m.scheduled(k);
        let scale = m.render_scale();
        match m.schedule_page(prev) {
            Some(page) => {
                if state.needs_request(page, scale) {
                    let r = RenderRequest { idx: page, scale };
                    assert(out == sent.push(r));
                    assert(out[sent.len() as int] == r);
                    assert forall|i: int| 0 <= i < sent.len() implies (#[trigger] sent[i]).idx
                        != page by {
                        assert(state.pending.contains(sent[i].idx));
                    }
                    assert forall|p: usize|
                        after.pending.contains(p) <==> m.pending.contains(p) || exists|i: int|
                            0 <= i < out.len() && (#[trigger] out[i]).idx == p by {
                        if after.pending.contains(p) {
                            if p == page {
                                assert(out[sent.len() as int].idx == p);
                            } else if !m.pending.contains(p) {
                                let i = choose|i: int|
                                    0 <= i < sent.len() && (#[trigger] sent[i]).idx == p;
                                assert(out[i].idx == p);
                            }
                        }
                        if exists|i: int| 0 <= i < out.len() && (#[trigger] out[i]).idx == p {
                            let i = choose|i: int| 0 <= i < out.len() && (#[trigger] out[i]).idx == p;
                            if i < sent.len() {
                                assert(sent[i].idx == p);
                            }
                        }
                    }
                    assert forall|i: int| 0 <= i < out.len() implies (#[trigger] out[i]).scale
                        == scale && m.needs_request(out[i].idx, scale) && exists|j: nat|
                        j < k && m.schedule_page(j) == Some(out[i].idx) by {
                        if i < sent.len() {
                            assert(sent[i] == out[i]);
                            let j = choose|j: nat|
                                j < prev && m.schedule_page(j) == Some(sent[i].idx);
                            assert(j < k && m.schedule_page(j) == Some(out[i].idx));
                        } else {
                            assert(m.schedule_page(prev) == Some(out[i].idx));
                        }
                    }
                    assert forall|i: int, j: int| 0 <= i < j < out.len() implies (
                    #[trigger] out[i]).idx != (#[trigger] out[j]).idx by {
                        if j < sent.len() {
                            assert(sent[i] == out[i] && sent[j] == out[j]);
                        } else {
                            assert(sent[i] == out[i]);
                        }
                    }
                } else {
                    assert(out == sent);
                    assert(after == state);
                }
                assert forall|j: nat| j < k && m.schedule_page(j) is Some implies m.cache.has_bitmap_at(
                    (#[trigger] m.schedule_page(j))->0,
                    scale,
                ) || after.pending.contains(m.schedule_page(j)->0) by {
                    if j < prev {
                        assert(state.pending.contains(m.schedule_page(j)->0)
                            || m.cache.has_bitmap_at(m.schedule_page(j)->0, scale));
                    }
                }
            },
            None => {
                assert(out == sent);
                assert(after == state);
            },
        }
    }
}

/// The request step sends nothing twice: run again before any result has
/// arrived, it sends no request and changes nothing.
pub proof fn lemma_request_step_not_repeated(m: AppModel)
    requires
        m.wf(),
    ensures
        m.after_request_step().0.after_request_step().1 == Seq::<RenderRequest>::empty(),
        m.after_request_step().0.after_request_step().0 == m.after_request_step().0,
{
    if m.cell is Some {
        let len = m.schedule_len();
        lemma_scheduled(m, len);
        let after = m.scheduled(len).0;
        assert(after.cell is Some);
        assert(after.render_scale() == m.render_scale());
        lemma_all_settled(after, m, len, len);
    }
}

/// Where every page at the first `upto` places of the schedule is cached or
/// under way, going through the first `k` of them sends nothing.
proof fn lemma_all_settled(after: AppModel, m: AppModel, k: nat, upto: nat)
    requires
        k <= upto,
        after == (AppModel { pending: after.pending, ..m }),
        forall|j: nat|
            j < upto && m.schedule_page(j) is Some ==> m.cache.has_bitmap_at(
                (#[trigger] m.schedule_page(j))->0,
                m.render_scale(),
            ) || after.pending.contains(m.schedule_page(j)->0),
    ensures
        after.scheduled(k) == (after, Seq::<RenderRequest>::empty()),
    decreases k,
{
    if k > 0 {
        let prev = (k - 1) as nat;
        lemma_all_settled(after, m, prev, upto);
        assert(after.schedule_page(prev) == m.schedule_page(prev));
        assert(after.render_scale() == m.render_scale());
        if m.schedule_page(prev) is Some {
            let page = m.schedule_page(prev)->0;
            assert(m.cache.has_bitmap_at(page, m.render_scale()) || after.pending.contains(page));
        }
    }
}

/// Encoding for nothing leaves the state as it is.
pub proof fn lemma_warmed_reflexive(m: AppModel, from: int, to: int)
    requires
        m.cache.wf(),
    ensures
        m.warmed(m, from, to),
{
}

/// Encoding for the pages up to `at` and then for the page `at` is encoding
/// for the pages up to and with `at`, within any window that holds them.
pub proof fn lemma_warmed_chain(a: AppModel, b: AppModel, c: AppModel, from: int, to: int, at: int)
    requires
        from <= at < to,
        a.warmed(b, from, to),
        b.warmed(c, at, at + 1),
    ensures
        a.warmed(c, from, to),
{
    let pan = (a.pan_x, a.pan_y);
    let was = a.cache.synced(a.zoom, pan);
    let mid = b.cache.synced(b.zoom, pan);
    if c.cache != a.cache {
        if b.cache == a.cache {
            assert(mid == was);
        } else if c.cache == b.cache {
        } else {
            assert(mid == b.cache);
            assert forall|p: usize, dark: bool| #[trigger]
                was.display(p, dark) is Some implies c.cache.display(p, dark) == was.display(
                p,
                dark,
            ) by {
                assert(b.cache.display(p, dark) == was.display(p, dark));
                assert(mid.display(p, dark) is Some);
            }
            assert forall|p: usize, dark: bool| #[trigger]
                c.cache.display(p, dark) is Some && was.display(p, dark) is None implies dark
                == a.dark_mode && from <= p < to && a.cache.bitmaps.contains_key(p) by {
                if mid.display(p, dark) is Some {
                    assert(b.cache.display(p, dark) is Some);
                }
            }
            assert forall|p: usize| #[trigger] was.inverted.contains_key(p) implies c.cache.inverted.contains_key(
                p,
            ) by {
                assert(b.cache.inverted.contains_key(p));
                assert(mid.inverted.contains_key(p));
            }
            assert forall|p: usize| #[trigger]
                c.cache.inverted.contains_key(p) && !was.inverted.contains_key(p)
                implies a.dark_mode && from <= p < to by {
                if mid.inverted.contains_key(p) {
                    assert(b.cache.inverted.contains_key(p));
                }
            }
        }
    }
}

/// Going through the pages up to `at` and then through the page `at` is
/// going through the pages up to and with `at`.
pub proof fn lemma_warmed_step(a: AppModel, b: AppModel, c: AppModel, from: int, at: usize)
    requires
        from <= at,
        a.cache.wf(),
        a.warmed_through(b, from, at as int),
        b.warmed_page(at, c),
        b.warmed(c, at as int, at + 1),
    ensures
        a.warmed_through(c, from, at + 1),
{
    let pan = (a.pan_x, a.pan_y);
    let mode = a.dark_mode;
    let was = a.cache.synced(a.zoom, pan);
    let mid = b.cache.synced(b.zoom, pan);
    let ready = b.cache.prepared(at, mode, b.zoom, pan);
    assert(a.warmed(b, from, at + 1));
    lemma_warmed_chain(a, b, c, from, at + 1, at as int);
    assert(b.prewarm_area(at) == a.prewarm_area(at));
    if a.cell is Some && a.window_has_bitmap(from, at + 1) {
        if a.cache.bitmaps.contains_key(at) {
            // the page `at` was gone through in this step
            assert(c.cache == ready.stored(at, mode, c.cache.display(at, mode)));
            assert(c.cache.zoom == a.zoom && c.cache.pan == pan);
            if a.window_has_bitmap(from, at as int) {
                assert(mid == b.cache);
            } else {
                assert(b.cache == a.cache);
                assert(mid == was);
            }
            assert(mid.display_source(at, mode) == was.display_source(at, mode));
            assert(ready.display_source(at, mode) == was.display_source(at, mode));
            assert(mid.display(at, mode) == was.display(at, mode)) by {
                if b.cache != a.cache && mid.display(at, mode) is Some && was.display(at, mode)
                    is None {
                    assert(b.cache.display(at, mode) is Some);
                }
                if was.display(at, mode) is Some {
                    assert(b.cache == a.cache || b.cache.display(at, mode) == was.display(
                        at,
                        mode,
                    ));
                }
            }
        } else {
            let p = choose|p: usize| from <= p < at + 1 && #[trigger] a.cache.bitmaps.contains_key(p);
            assert(from <= p < at && a.cache.bitmaps.contains_key(p));
            assert(a.window_has_bitmap(from, at as int));
            assert(c.cache == b.cache);
        }
        assert forall|p: usize|
            from <= p < at + 1 && #[trigger] a.cache.bitmaps.contains_key(p) implies {
            &&& c.cache.display(p, mode) is Some || (mode && c.cache.inverted.contains_key(p))
                || !mode
            &&& was.display(p, mode) is Some ==> c.cache.display(p, mode) == was.display(p, mode)
            &&& was.display(p, mode) is None && !encodable(
                was.display_source(p, mode),
                a.prewarm_area(p),
                a.cell->0,
            ) ==> c.cache.display(p, mode) is None
        } by {
            if p < at {
                assert(a.window_has_bitmap(from, at as int));
                assert(mid == b.cache);
                if c.cache != b.cache {
                    if b.cache.display(p, mode) is Some {
                        assert(mid.display(p, mode) is Some);
                        assert(c.cache.display(p, mode) == mid.display(p, mode));
                    }
                    if b.cache.inverted.contains_key(p) {
                        assert(mid.inverted.contains_key(p));
                    }
                    if c.cache.display(p, mode) is Some && mid.display(p, mode) is None {
                        assert(at <= p < at + 1);
                    }
                }
            }
        }
    } else {
        if a.cell is Some {
            assert(!a.window_has_bitmap(from, at as int)) by {
                if a.window_has_bitmap(from, at as int) {
                    let p = choose|p: usize|
                        from <= p < at && #[trigger] a.cache.bitmaps.contains_key(p);
                    assert(from <= p < at + 1 && a.cache.bitmaps.contains_key(p));
                }
            }
            assert(!a.cache.bitmaps.contains_key(at)) by {
                if a.cache.bitmaps.contains_key(at) {
                    assert(from <= at < at + 1 && a.cache.bitmaps.contains_key(at));
                }
            }
        }
        assert(b.cache == a.cache);
        assert(c.cache == b.cache);
    }
}

/// Moves a pan one step towards the far edge or the near one, and keeps it
/// between the two.
pub fn step_pan(pan: i32, forward: bool) -> (r: i32)
    requires
        pan_in_range(pan),
    ensures
        r == AppModel::pan_stepped(pan, forward),
        pan_in_range(r),
{
    if forward {
        if pan + PAN_STEP > PAN_LIMIT {
            PAN_LIMIT
        } else {
            pan + PAN_STEP
        }
    } else {
        if pan - PAN_STEP < -PAN_LIMIT {
            -PAN_LIMIT
        } else {
            pan - PAN_STEP
        }
    }
}

} // verus!
