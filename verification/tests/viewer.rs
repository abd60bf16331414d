use ratatui_image::picker::Picker;
use tpdf::app::{
    step_pan, App, AppConfig, AppError, Message, RenderRequest, RenderResult, EVICT_RADIUS,
    FRAME_WAIT_MS, IDLE_WAIT_MS, SETTLED_WAIT_MS,
};
use tpdf::area::CellRect;
use tpdf::bitmap::Bitmap;
use tpdf::goto::parse_number;
use tpdf::input::{key_to_goto_message, key_to_message, Key};
use tpdf::layout::PageLayout;
use tpdf::pool::{worker_count, worker_step, WorkerAction, WorkerEvent};

fn config(layout: PageLayout) -> AppConfig {
    AppConfig { dark_mode: false, fullscreen: false, start_page: 0, layout, text_mode: false }
}

fn viewer(pages: usize, layout: PageLayout, start: usize) -> App {
    let mut c = config(layout);
    c.start_page = start;
    match App::new(pages, Some((600_000, 800_000)), Some(Picker::halfblocks()), 60, 41, &c) {
        Ok(app) => app,
        Err(_) => panic!("a document with pages makes a viewer"),
    }
}

fn flat(width: u32, height: u32, value: u8) -> Bitmap {
    Bitmap::new(width, height, vec![value; (3 * width * height) as usize]).unwrap()
}

fn pages_of(requests: &[RenderRequest]) -> Vec<usize> {
    requests.iter().map(|r| r.idx).collect()
}

fn result(idx: usize, scale: u64) -> RenderResult {
    RenderResult { idx, scale, img: flat(12, 16, idx as u8) }
}

#[test]
fn a_document_without_pages_makes_no_viewer() {
    let r = App::new(0, None, None, 80, 24, &config(PageLayout::Single));
    assert!(matches!(r, Err(AppError::NoPages)));
}

#[test]
fn new_viewer_starts_as_configured() {
    let c = AppConfig {
        dark_mode: true,
        fullscreen: true,
        start_page: 500,
        layout: PageLayout::Dual,
        text_mode: false,
    };
    let app = match App::new(10, None, None, 80, 24, &c) {
        Ok(app) => app,
        Err(_) => panic!("ten pages"),
    };
    assert_eq!(app.current_page, 9);
    assert_eq!(app.page_count, 10);
    assert_eq!(app.zoom, 100);
    assert_eq!((app.pan_x, app.pan_y), (0, 0));
    assert!(app.dark_mode && app.fullscreen);
    assert!(app.text_mode);
    assert_eq!(app.page_bounds, (612_000, 792_000));
    assert!(!app.should_quit && !app.goto_mode);
    assert_eq!(app.render_scale(), 1_000_000);
    let shown = viewer(10, PageLayout::Single, 3);
    assert_eq!(shown.current_page, 3);
    assert!(!shown.text_mode);
}

#[test]
fn render_scale_uses_the_encoder_cell_and_the_usable_rows() {
    // 60 columns of 10 px over 600 pt; 40 usable rows of 20 px over 800 pt
    let mut app = viewer(100, PageLayout::Single, 0);
    assert_eq!(app.usable_rows(), 40);
    assert_eq!(app.render_scale(), 1_000_000);
    app.fullscreen = true;
    assert_eq!(app.usable_rows(), 41);
    app.term_cols = 120;
    assert_eq!(app.render_scale(), 1_025_000);
    app.layout = PageLayout::Dual;
    assert_eq!(app.render_scale(), 1_000_000);
    app.zoom = 200;
    assert_eq!(app.render_scale(), 2_000_000);
    app.zoom = 50;
    assert_eq!(app.render_scale(), 1_000_000);
}

#[test]
fn first_page_requests_visible_then_ahead_and_none_behind() {
    let mut app = viewer(100, PageLayout::Single, 0);
    let requests = app.request_visible_pages();
    assert_eq!(pages_of(&requests), vec![0, 1, 2, 3, 4, 5]);
    let scale = app.render_scale();
    assert!(requests.iter().all(|r| r.scale == scale));
}

#[test]
fn requests_zig_zag_outwards() {
    let mut app = viewer(100, PageLayout::Dual, 10);
    let requests = app.request_visible_pages();
    assert_eq!(pages_of(&requests), vec![10, 11, 12, 9, 13, 8, 14, 7, 15, 6, 16, 5]);
}

#[test]
fn requests_stop_at_the_ends_of_the_document() {
    let mut app = viewer(5, PageLayout::Triple, 2);
    let requests = app.request_visible_pages();
    assert_eq!(pages_of(&requests), vec![2, 3, 4, 1, 0]);
    let mut last = viewer(10, PageLayout::Triple, 9);
    assert_eq!(pages_of(&last.request_visible_pages()), vec![9, 8, 7, 6, 5, 4]);
}

#[test]
fn a_page_under_way_is_not_requested_again() {
    let mut app = viewer(100, PageLayout::Single, 0);
    let scale = app.render_scale();
    assert!(app.request_page(7, scale) == Some(RenderRequest { idx: 7, scale }));
    assert!(app.request_page(7, scale).is_none());
    assert!(app.request_page(7, scale + 500_000).is_none());
    assert_eq!(app.pending.len(), 1);
    let first = app.request_visible_pages();
    assert_eq!(pages_of(&first), vec![0, 1, 2, 3, 4, 5]);
    assert!(app.request_visible_pages().is_empty());
    assert_eq!(app.pending.len(), 7);
}

#[test]
fn a_cached_page_is_not_requested() {
    let mut app = viewer(100, PageLayout::Single, 0);
    let scale = app.render_scale();
    app.cache.insert_image(1, scale + 9_000, flat(4, 4, 0));
    app.cache.insert_image(2, scale + 10_000, flat(4, 4, 0));
    assert_eq!(pages_of(&app.request_visible_pages()), vec![0, 2, 3, 4, 5]);
}

#[test]
fn without_an_encoder_nothing_is_requested() {
    let mut app = match App::new(10, None, None, 80, 24, &config(PageLayout::Single)) {
        Ok(app) => app,
        Err(_) => panic!("ten pages"),
    };
    assert!(app.request_visible_pages().is_empty());
    assert!(app.request_page(0, 1_000_000).is_none());
    assert!(!app.process_render_results(vec![result(0, 1_000_000)]));
    assert!(!app.has_pending_visible());
    assert!(!app.has_nearby_unwarmed_protocol());
    assert_eq!(app.poll_timeout_ms(), SETTLED_WAIT_MS);
}

#[test]
fn results_leave_the_pending_set_and_stale_ones_are_dropped() {
    let mut app = viewer(100, PageLayout::Single, 0);
    let scale = app.render_scale();
    let _ = app.request_visible_pages();
    assert!(app.has_pending_visible());
    let received = app.process_render_results(vec![result(1, scale * 2), result(2, scale + 20_000)]);
    assert!(!received);
    assert!(!app.pending.contains(&1) && !app.pending.contains(&2));
    assert!(app.pending.contains(&0));
    assert_eq!(app.cache.image_dims(1), None);
    let received = app.process_render_results(vec![result(0, scale), result(3, scale + 9_999)]);
    assert!(received);
    assert!(app.cache.has_image_at_scale(0, scale));
    assert!(app.cache.has_image_at_scale(3, scale));
    assert!(!app.pending.contains(&0) && !app.pending.contains(&3));
    assert!(!app.has_pending_visible());
    // the visible page and the pages just after it were encoded at once
    assert!(app.cache.has_protocol(0, false));
    assert!(app.cache.has_protocol(3, false));
    // a page that was dropped as stale is asked for again
    assert_eq!(pages_of(&app.request_visible_pages()), vec![1, 2]);
}

#[test]
fn the_last_fresh_result_of_a_page_wins() {
    let mut app = viewer(100, PageLayout::Single, 0);
    let scale = app.render_scale();
    let first = RenderResult { idx: 0, scale, img: flat(4, 4, 0) };
    let second = RenderResult { idx: 0, scale, img: flat(8, 8, 0) };
    let stale = RenderResult { idx: 0, scale: scale * 3, img: flat(2, 2, 0) };
    assert!(app.absorb_results(vec![first, second, stale]));
    assert_eq!(app.cache.image_dims(0), Some((8, 8)));
}

#[test]
fn idle_ticks_encode_one_page_each_ahead_first() {
    let mut app = viewer(100, PageLayout::Single, 10);
    let scale = app.render_scale();
    for page in [8usize, 10, 12, 15, 16, 30] {
        app.cache.insert_image(page, scale, flat(12, 16, 1));
    }
    assert!(app.has_nearby_unwarmed_protocol());
    assert_eq!(app.poll_timeout_ms(), IDLE_WAIT_MS);
    let mut order = Vec::new();
    while let Some(target) = app.prewarm_target() {
        app.idle_tick();
        assert!(app.cache.has_protocol(target, false));
        order.push(target);
        assert!(order.len() <= 10);
    }
    // 16 and 30 lie outside the window of one visible page and five around
    assert_eq!(order, vec![10, 12, 15, 8]);
    assert!(!app.has_nearby_unwarmed_protocol());
    assert!(!app.cache.has_protocol(16, false));
    assert_eq!(app.poll_timeout_ms(), SETTLED_WAIT_MS);
    // the other mode is a new round of work
    let _ = app.update(Message::ToggleDarkMode);
    assert_eq!(app.prewarm_target(), Some(10));
}

#[test]
fn poll_timeout_follows_the_work_left() {
    let mut app = viewer(100, PageLayout::Single, 0);
    assert_eq!(app.poll_timeout_ms(), FRAME_WAIT_MS);
    let scale = app.render_scale();
    app.cache.insert_image(0, scale, flat(12, 16, 1));
    assert_eq!(app.poll_timeout_ms(), IDLE_WAIT_MS);
    app.prewarm_one_nearby_protocol();
    assert_eq!(app.poll_timeout_ms(), SETTLED_WAIT_MS);
    let _ = app.update(Message::ToggleTextMode);
    assert_eq!(app.poll_timeout_ms(), SETTLED_WAIT_MS);
}

#[test]
fn navigation_stays_in_the_document() {
    let mut app = viewer(3, PageLayout::Single, 0);
    let _ = app.update(Message::PrevPage);
    assert_eq!(app.current_page, 0);
    let _ = app.update(Message::NextPage);
    let _ = app.update(Message::NextPage);
    assert_eq!(app.current_page, 2);
    let _ = app.update(Message::NextPage);
    assert_eq!(app.current_page, 2);
    let _ = app.update(Message::FirstPage);
    assert_eq!(app.current_page, 0);
    let _ = app.update(Message::LastPage);
    assert_eq!(app.current_page, 2);
    let _ = app.update(Message::Quit);
    assert!(app.should_quit);
}

#[test]
fn zoom_is_clamped_and_resets_pan_and_pending() {
    let mut app = viewer(10, PageLayout::Single, 0);
    let _ = app.request_visible_pages();
    let _ = app.update(Message::ZoomIn);
    assert_eq!(app.zoom, 110);
    assert!(app.pending.is_empty());
    let _ = app.update(Message::ScrollRight);
    let _ = app.update(Message::ScrollDown);
    assert_eq!((app.pan_x, app.pan_y), (15, 15));
    let _ = app.update(Message::ZoomIn);
    assert_eq!((app.zoom, app.pan_x, app.pan_y), (120, 0, 0));
    for _ in 0..40 {
        let _ = app.update(Message::ZoomIn);
    }
    assert_eq!(app.zoom, 400);
    for _ in 0..50 {
        let _ = app.update(Message::ZoomOut);
    }
    assert_eq!(app.zoom, 25);
    let _ = app.update(Message::ZoomIn);
    assert_eq!(app.zoom, 35);
    let _ = app.update(Message::ZoomOut);
    let _ = app.update(Message::ZoomOut);
    assert_eq!(app.zoom, 25);
    let _ = app.update(Message::ZoomReset);
    assert_eq!(app.zoom, 100);
}

#[test]
fn panning_needs_zoom_and_stops_at_the_edges() {
    let mut app = viewer(10, PageLayout::Single, 0);
    let _ = app.update(Message::ScrollRight);
    let _ = app.update(Message::ScrollUp);
    assert_eq!((app.pan_x, app.pan_y), (0, 0));
    let _ = app.update(Message::ZoomIn);
    for _ in 0..10 {
        let _ = app.update(Message::ScrollLeft);
        let _ = app.update(Message::ScrollDown);
    }
    assert_eq!((app.pan_x, app.pan_y), (-100, 100));
    let _ = app.update(Message::ScrollRight);
    let _ = app.update(Message::ScrollUp);
    assert_eq!((app.pan_x, app.pan_y), (-85, 85));
    assert_eq!(step_pan(90, true), 100);
    assert_eq!(step_pan(-90, false), -100);
    assert_eq!(step_pan(0, true), 15);
}

#[test]
fn text_mode_scrolls_the_text() {
    let mut app = viewer(10, PageLayout::Single, 0);
    let _ = app.update(Message::ToggleTextMode);
    assert!(app.text_mode);
    let _ = app.update(Message::ScrollDown);
    let _ = app.update(Message::ScrollDown);
    assert_eq!(app.text_scroll, 6);
    let _ = app.update(Message::ScrollUp);
    assert_eq!(app.text_scroll, 3);
    let _ = app.update(Message::ScrollUp);
    let _ = app.update(Message::ScrollUp);
    assert_eq!(app.text_scroll, 0);
    app.text_scroll = usize::MAX - 1;
    let _ = app.update(Message::ScrollDown);
    assert_eq!(app.text_scroll, usize::MAX);
    let _ = app.update(Message::NextPage);
    assert_eq!(app.text_scroll, 0);
}

#[test]
fn leaving_text_mode_starts_over() {
    let mut app = viewer(10, PageLayout::Single, 0);
    let scale = app.render_scale();
    app.cache.insert_image(0, scale, flat(4, 4, 0));
    let _ = app.update(Message::ToggleTextMode);
    assert!(app.cache.has_image_at_scale(0, scale));
    let requests = app.update(Message::ToggleTextMode);
    assert!(!app.text_mode);
    assert!(!app.cache.has_image_at_scale(0, scale));
    assert_eq!(pages_of(&requests), vec![0, 1, 2, 3, 4, 5]);
    let mut blind = match App::new(10, None, None, 80, 24, &config(PageLayout::Single)) {
        Ok(app) => app,
        Err(_) => panic!("ten pages"),
    };
    assert!(blind.update(Message::ToggleTextMode).is_empty());
    assert!(blind.text_mode);
}

#[test]
fn layout_cycle_drops_display_objects_only() {
    let mut app = viewer(10, PageLayout::Single, 0);
    let scale = app.render_scale();
    assert!(app.process_render_results(vec![result(0, scale)]));
    assert!(app.cache.has_protocol(0, false));
    let _ = app.update(Message::CycleLayout);
    assert!(app.layout == PageLayout::Dual);
    assert!(!app.cache.has_protocol(0, false));
    assert_eq!(app.cache.image_dims(0), Some((12, 16)));
}

#[test]
fn fullscreen_and_resize_empty_the_cache() {
    let mut app = viewer(10, PageLayout::Single, 0);
    let scale = app.render_scale();
    let _ = app.request_visible_pages();
    assert!(app.process_render_results(vec![result(0, scale)]));
    let _ = app.update(Message::ToggleFullscreen);
    assert!(app.fullscreen);
    assert_eq!(app.cache.image_dims(0), None);
    assert!(app.pending.is_empty());
    let _ = app.request_visible_pages();
    let scale = app.render_scale();
    assert!(app.process_render_results(vec![result(0, scale)]));
    app.handle_resize(100, 50);
    assert_eq!((app.term_cols, app.term_rows), (100, 50));
    assert_eq!(app.cache.image_dims(0), None);
    assert!(app.pending.is_empty());
    let _ = app.update(Message::ToggleDarkMode);
    assert!(app.dark_mode);
}

#[test]
fn goto_validates_the_page_number() {
    let mut app = viewer(20, PageLayout::Single, 4);
    let _ = app.update(Message::EnterGoto);
    assert!(app.goto_mode);
    for c in ['1', '2', '9'] {
        let _ = app.update(Message::GotoInput(c));
    }
    let _ = app.update(Message::GotoBackspace);
    assert_eq!(app.goto_input, vec!['1', '2']);
    let _ = app.update(Message::GotoConfirm);
    assert_eq!(app.current_page, 11);
    assert!(!app.goto_mode && app.goto_input.is_empty());
    for (typed, lands) in [("20", 19), ("21", 19), ("0", 19), ("1", 0), ("", 0), ("x", 0), ("+7", 6)] {
        let _ = app.update(Message::EnterGoto);
        for c in typed.chars() {
            let _ = app.update(Message::GotoInput(c));
        }
        let _ = app.update(Message::GotoConfirm);
        assert_eq!(app.current_page, lands);
    }
    let _ = app.update(Message::EnterGoto);
    for _ in 0..15 {
        let _ = app.update(Message::GotoInput('1'));
    }
    assert_eq!(app.goto_input.len(), 10);
    let _ = app.update(Message::GotoCancel);
    assert!(!app.goto_mode && app.goto_input.is_empty());
    let _ = app.update(Message::GotoBackspace);
    assert!(app.goto_input.is_empty());
}

#[test]
fn numbers_are_read_as_unsigned_integers() {
    let read = |s: &str| parse_number(&s.chars().collect());
    assert_eq!(read("0"), Some(0));
    assert_eq!(read("007"), Some(7));
    assert_eq!(read("+42"), Some(42));
    assert_eq!(read("18446744073709551615"), Some(usize::MAX));
    assert_eq!(read("18446744073709551616"), None);
    assert_eq!(read("99999999999999999999999"), None);
    for bad in ["", "+", "-1", "1 ", " 1", "1a", "++1", "1+", "١"] {
        assert_eq!(read(bad), None);
        assert!(bad.parse::<usize>().is_err());
    }
}

#[test]
fn keys_steer_or_edit() {
    assert!(key_to_message(Key::Char('q')) == Some(Message::Quit));
    assert!(key_to_message(Key::Esc) == Some(Message::Quit));
    for k in [Key::Right, Key::Char('l'), Key::Char(' '), Key::PageDown] {
        assert!(key_to_message(k) == Some(Message::NextPage));
    }
    for k in [Key::Left, Key::Char('h'), Key::PageUp] {
        assert!(key_to_message(k) == Some(Message::PrevPage));
    }
    assert!(key_to_message(Key::Char('g')) == Some(Message::FirstPage));
    assert!(key_to_message(Key::Home) == Some(Message::FirstPage));
    assert!(key_to_message(Key::Char('G')) == Some(Message::LastPage));
    assert!(key_to_message(Key::End) == Some(Message::LastPage));
    assert!(key_to_message(Key::Char('+')) == Some(Message::ZoomIn));
    assert!(key_to_message(Key::Char('=')) == Some(Message::ZoomIn));
    assert!(key_to_message(Key::Char('-')) == Some(Message::ZoomOut));
    assert!(key_to_message(Key::Char('0')) == Some(Message::ZoomReset));
    assert!(key_to_message(Key::Up) == Some(Message::ScrollUp));
    assert!(key_to_message(Key::Char('k')) == Some(Message::ScrollUp));
    assert!(key_to_message(Key::Down) == Some(Message::ScrollDown));
    assert!(key_to_message(Key::Char('j')) == Some(Message::ScrollDown));
    assert!(key_to_message(Key::Char('H')) == Some(Message::ScrollLeft));
    assert!(key_to_message(Key::Char('L')) == Some(Message::ScrollRight));
    assert!(key_to_message(Key::Char('d')) == Some(Message::CycleLayout));
    assert!(key_to_message(Key::Char('n')) == Some(Message::ToggleDarkMode));
    assert!(key_to_message(Key::Char('f')) == Some(Message::ToggleFullscreen));
    assert!(key_to_message(Key::Char('p')) == Some(Message::EnterGoto));
    for k in [Key::Char('x'), Key::Enter, Key::Backspace, Key::Other] {
        assert!(key_to_message(k).is_none());
    }
    assert!(key_to_goto_message(Key::Char('7')) == Some(Message::GotoInput('7')));
    assert!(key_to_goto_message(Key::Char('q')).is_none());
    assert!(key_to_goto_message(Key::Char('٣')).is_none());
    assert!(key_to_goto_message(Key::Backspace) == Some(Message::GotoBackspace));
    assert!(key_to_goto_message(Key::Enter) == Some(Message::GotoConfirm));
    assert!(key_to_goto_message(Key::Esc) == Some(Message::GotoCancel));
    assert!(key_to_goto_message(Key::Right).is_none());
}

#[test]
fn a_key_goes_by_the_mode() {
    let mut app = viewer(50, PageLayout::Single, 0);
    let (handled, _) = app.handle_key(Key::Char('p'));
    assert!(handled && app.goto_mode);
    let (handled, _) = app.handle_key(Key::Char('q'));
    assert!(!handled && !app.should_quit);
    for k in [Key::Char('3'), Key::Char('0'), Key::Enter] {
        assert!(app.handle_key(k).0);
    }
    assert_eq!(app.current_page, 29);
    assert!(!app.handle_key(Key::Enter).0);
    assert!(app.handle_key(Key::Char('q')).0);
    assert!(app.should_quit);
}

#[test]
fn a_round_of_input_requests_and_evicts() {
    let mut app = viewer(100, PageLayout::Single, 0);
    let scale = app.render_scale();
    for page in [0usize, 15, 16, 60] {
        app.cache.insert_image(page, scale, flat(4, 4, 0));
    }
    assert!(app.after_events(false).is_empty());
    assert_eq!(app.cache.image_dims(60), Some((4, 4)));
    let requests = app.after_events(true);
    assert_eq!(pages_of(&requests), vec![1, 2, 3, 4, 5]);
    assert_eq!(EVICT_RADIUS, 15);
    assert_eq!(app.cache.image_dims(15), Some((4, 4)));
    assert_eq!(app.cache.image_dims(16), None);
    assert_eq!(app.cache.image_dims(60), None);
    let _ = app.update(Message::ToggleTextMode);
    assert!(app.after_events(true).is_empty());
}

#[test]
fn page_area_is_a_share_of_the_columns() {
    let mut app = viewer(100, PageLayout::Triple, 0);
    assert!(app.page_area() == CellRect { x: 0, y: 0, width: 20, height: 40 });
    app.layout = PageLayout::Single;
    app.fullscreen = true;
    assert!(app.page_area() == CellRect { x: 0, y: 0, width: 60, height: 41 });
}

#[test]
fn pool_has_one_to_four_workers() {
    assert_eq!(worker_count(None), 2);
    assert_eq!(worker_count(Some(0)), 1);
    assert_eq!(worker_count(Some(1)), 1);
    assert_eq!(worker_count(Some(3)), 3);
    assert_eq!(worker_count(Some(4)), 4);
    assert_eq!(worker_count(Some(64)), 4);
}

#[test]
fn worker_pulls_rasterizes_and_sends() {
    let request = RenderRequest { idx: 4, scale: 1_250_000 };
    assert!(matches!(worker_step(WorkerEvent::Ready), WorkerAction::Pull));
    assert!(matches!(worker_step(WorkerEvent::Pulled(request)), WorkerAction::Rasterize(r) if r == request));
    match worker_step(WorkerEvent::Rasterized(request, flat(2, 3, 9))) {
        WorkerAction::Send(result) => {
            assert_eq!((result.idx, result.scale), (4, 1_250_000));
            assert_eq!((result.img.width(), result.img.height()), (2, 3));
        }
        _ => panic!("a rasterized page is sent"),
    }
    assert!(matches!(worker_step(WorkerEvent::RasterFailed(request)), WorkerAction::Pull));
    assert!(matches!(worker_step(WorkerEvent::Sent), WorkerAction::Pull));
    assert!(matches!(worker_step(WorkerEvent::QueueClosed), WorkerAction::Exit));
    assert!(matches!(worker_step(WorkerEvent::ReceiverGone), WorkerAction::Exit));
}

#[test]
fn prewarm_visible_goes_through_the_window_only() {
    let mut app = viewer(100, PageLayout::Dual, 10);
    let scale = app.render_scale();
    for page in [9usize, 10, 12, 14, 15, 40] {
        app.cache.insert_image(page, scale, flat(12, 16, 1));
    }
    app.prewarm_visible();
    // two visible pages and three more: pages 10 to 14
    for page in [10usize, 12, 14] {
        assert!(app.cache.has_protocol(page, false));
        assert!(!app.cache.has_protocol(page, true));
    }
    for page in [9usize, 11, 15, 40] {
        assert!(!app.cache.has_protocol(page, false));
    }
    assert_eq!(app.cache.image_dims(40), Some((12, 16)));
}

#[test]
fn prewarm_visible_drops_what_was_encoded_for_another_zoom() {
    let mut app = viewer(100, PageLayout::Single, 0);
    let scale = app.render_scale();
    app.cache.insert_image(0, scale, flat(12, 16, 1));
    app.cache.insert_image(50, scale, flat(12, 16, 1));
    app.cache.store_display(
        50,
        false,
        tpdf::encoder::encode(
            &Picker::halfblocks(),
            flat(12, 16, 1),
            CellRect { x: 0, y: 0, width: 6, height: 4 },
        ),
    );
    assert!(app.cache.has_protocol(50, false));
    let _ = app.update(Message::ZoomIn);
    app.prewarm_visible();
    assert!(app.cache.has_protocol(0, false));
    assert!(!app.cache.has_protocol(50, false));
}

#[test]
fn prewarm_visible_without_bitmaps_changes_nothing() {
    let mut app = viewer(100, PageLayout::Single, 0);
    let scale = app.render_scale();
    app.cache.insert_image(50, scale, flat(12, 16, 1));
    app.cache.store_display(
        50,
        true,
        tpdf::encoder::encode(
            &Picker::halfblocks(),
            flat(12, 16, 1),
            CellRect { x: 0, y: 0, width: 6, height: 4 },
        ),
    );
    let _ = app.update(Message::ZoomIn);
    app.prewarm_visible();
    // no page of the window has a bitmap: the cache was not even synced
    assert!(app.cache.has_protocol(50, true));
    assert!(!app.cache.has_protocol(0, false));
}
