use ratatui_image::picker::Picker;
use tpdf::area::CellRect;
use tpdf::bitmap::Bitmap;
use tpdf::cache::PageCache;
use tpdf::encoder::{can_encode, encode};

fn flat(width: u32, height: u32, value: u8) -> Bitmap {
    Bitmap::new(width, height, vec![value; (3 * width * height) as usize]).unwrap()
}

fn area() -> CellRect {
    CellRect { x: 0, y: 0, width: 8, height: 4 }
}

#[test]
fn new_cache_holds_nothing() {
    let cache = PageCache::new();
    assert!(!cache.has_image_at_scale(0, 1_000_000));
    assert_eq!(cache.image_dims(0), None);
    assert!(!cache.has_protocol(0, false));
    assert!(!cache.has_protocol(0, true));
    assert!(cache.cached_protocol(0, false).is_none());
    assert!(!cache.has_text(0));
}

#[test]
fn bitmap_answers_within_the_tolerance() {
    let mut cache = PageCache::new();
    cache.insert_image(3, 1_500_000, flat(4, 6, 9));
    assert!(cache.has_image_at_scale(3, 1_500_000));
    assert!(cache.has_image_at_scale(3, 1_509_999));
    assert!(cache.has_image_at_scale(3, 1_490_001));
    assert!(!cache.has_image_at_scale(3, 1_510_000));
    assert!(!cache.has_image_at_scale(3, 1_490_000));
    assert!(!cache.has_image_at_scale(4, 1_500_000));
    assert_eq!(cache.image_dims(3), Some((4, 6)));
    assert_eq!(cache.image_dims(4), None);
}

#[test]
fn two_scales_near_the_stored_one_both_hit() {
    let mut cache = PageCache::new();
    cache.insert_image(0, 1_000_000, flat(2, 2, 0));
    // 0.991 and 1.009 both count as 1.000, though they differ by 0.018
    assert!(cache.has_image_at_scale(0, 991_000));
    assert!(cache.has_image_at_scale(0, 1_009_000));
}

#[test]
fn a_new_bitmap_replaces_the_old_one() {
    let mut cache = PageCache::new();
    cache.insert_image(1, 1_000_000, flat(4, 4, 1));
    cache.insert_image(1, 2_000_000, flat(8, 8, 2));
    assert!(!cache.has_image_at_scale(1, 1_000_000));
    assert!(cache.has_image_at_scale(1, 2_000_000));
    assert_eq!(cache.image_dims(1), Some((8, 8)));
}

#[test]
fn get_protocol_without_a_bitmap_is_none() {
    let picker = Picker::halfblocks();
    let mut cache = PageCache::new();
    assert!(cache.get_protocol(0, false, 100, (0, 0), &picker, area()).is_none());
    assert!(cache.get_protocol(0, true, 100, (0, 0), &picker, area()).is_none());
    assert!(!cache.has_protocol(0, false));
}

#[test]
fn get_protocol_encodes_once_and_caches() {
    let picker = Picker::halfblocks();
    let mut cache = PageCache::new();
    cache.insert_image(0, 1_000_000, flat(16, 16, 200));
    assert!(cache.prepare_display(0, false, 100, (0, 0)).is_some());
    assert!(cache.get_protocol(0, false, 100, (0, 0), &picker, area()).is_some());
    assert!(cache.has_protocol(0, false));
    // cached now: nothing is left to encode
    assert!(cache.prepare_display(0, false, 100, (0, 0)).is_none());
    assert!(cache.get_protocol(0, false, 100, (0, 0), &picker, area()).is_some());
}

#[test]
fn inserting_a_bitmap_clears_what_was_derived() {
    let picker = Picker::halfblocks();
    let mut cache = PageCache::new();
    cache.insert_image(0, 1_000_000, flat(16, 16, 200));
    cache.insert_image(1, 1_000_000, flat(16, 16, 100));
    assert!(cache.get_protocol(0, false, 100, (0, 0), &picker, area()).is_some());
    assert!(cache.get_protocol(0, true, 100, (0, 0), &picker, area()).is_some());
    assert!(cache.get_protocol(1, false, 100, (0, 0), &picker, area()).is_some());
    cache.insert_image(0, 2_000_000, flat(32, 32, 50));
    assert!(!cache.has_protocol(0, false));
    assert!(!cache.has_protocol(0, true));
    assert!(cache.has_protocol(1, false));
    // the next lookup derives again, from the new bitmap
    let source = cache.prepare_display(0, true, 100, (0, 0)).unwrap();
    assert_eq!((source.width(), source.height()), (32, 32));
    assert_eq!(source.bytes()[0], 205);
    assert!(cache.get_protocol(0, false, 100, (0, 0), &picker, area()).is_some());
    assert!(cache.has_protocol(0, false));
}

#[test]
fn inserting_the_same_bitmap_again_clears_too() {
    let picker = Picker::halfblocks();
    let mut cache = PageCache::new();
    cache.insert_image(0, 1_000_000, flat(16, 16, 200));
    assert!(cache.get_protocol(0, false, 100, (0, 0), &picker, area()).is_some());
    cache.insert_image(0, 1_000_000, flat(16, 16, 200));
    assert!(!cache.has_protocol(0, false));
    assert!(cache.has_image_at_scale(0, 1_000_000));
}

#[test]
fn dark_mode_has_its_own_display_object() {
    let picker = Picker::halfblocks();
    let mut cache = PageCache::new();
    cache.insert_image(0, 1_000_000, flat(16, 16, 250));
    assert!(cache.get_protocol(0, false, 100, (0, 0), &picker, area()).is_some());
    assert!(!cache.has_protocol(0, true));
    // dark mode does not reuse the light object: its source is the inversion
    let source = cache.prepare_display(0, true, 100, (0, 0)).unwrap();
    assert!(source.bytes().iter().all(|&b| b == 5));
    assert!(cache.get_protocol(0, true, 100, (0, 0), &picker, area()).is_some());
    assert!(cache.has_protocol(0, true));
    assert!(cache.has_protocol(0, false));
}

#[test]
fn zoom_or_pan_change_drops_every_display_object() {
    let picker = Picker::halfblocks();
    let mut cache = PageCache::new();
    cache.insert_image(0, 1_000_000, flat(16, 16, 1));
    cache.insert_image(1, 1_000_000, flat(16, 16, 2));
    assert!(cache.get_protocol(0, false, 200, (0, 0), &picker, area()).is_some());
    assert!(cache.get_protocol(1, true, 200, (0, 0), &picker, area()).is_some());
    assert!(cache.has_protocol(0, false) && cache.has_protocol(1, true));
    // page 0 is asked at another pan: page 1 loses its object as well
    assert!(cache.get_protocol(0, false, 200, (15, 0), &picker, area()).is_some());
    assert!(cache.has_protocol(0, false));
    assert!(!cache.has_protocol(1, true));
    assert!(cache.get_protocol(1, true, 200, (15, 0), &picker, area()).is_some());
    assert!(cache.get_protocol(1, true, 210, (15, 0), &picker, area()).is_some());
    assert!(!cache.has_protocol(0, false));
    // bitmaps stay
    assert!(cache.has_image_at_scale(0, 1_000_000));
    assert!(cache.has_image_at_scale(1, 1_000_000));
}

#[test]
fn display_source_is_cropped_when_zoomed_in() {
    let mut cache = PageCache::new();
    cache.insert_image(0, 1_000_000, flat(16, 12, 7));
    let at_one = cache.prepare_display(0, false, 100, (0, 0)).unwrap();
    assert_eq!((at_one.width(), at_one.height()), (16, 12));
    let zoomed = cache.prepare_display(0, false, 200, (0, 0)).unwrap();
    assert_eq!((zoomed.width(), zoomed.height()), (8, 6));
    let out = cache.prepare_display(0, false, 50, (0, 0)).unwrap();
    assert_eq!((out.width(), out.height()), (16, 12));
}

#[test]
fn store_display_keeps_an_object_only_for_a_page_with_a_bitmap() {
    let picker = Picker::halfblocks();
    let mut cache = PageCache::new();
    let made = encode(&picker, flat(16, 16, 3), area());
    assert!(made.is_some());
    cache.store_display(5, false, made);
    assert!(!cache.has_protocol(5, false));
    cache.insert_image(5, 1_000_000, flat(16, 16, 3));
    cache.store_display(5, false, None);
    assert!(!cache.has_protocol(5, false));
    let again = encode(&picker, flat(16, 16, 3), area());
    cache.store_display(5, true, again);
    assert!(cache.has_protocol(5, true));
    assert!(!cache.has_protocol(5, false));
}

#[test]
fn invalidate_protocols_keeps_bitmaps() {
    let picker = Picker::halfblocks();
    let mut cache = PageCache::new();
    cache.insert_image(0, 1_000_000, flat(16, 16, 200));
    assert!(cache.get_protocol(0, true, 100, (0, 0), &picker, area()).is_some());
    cache.invalidate_protocols();
    assert!(!cache.has_protocol(0, true));
    assert!(cache.has_image_at_scale(0, 1_000_000));
    assert_eq!(cache.image_dims(0), Some((16, 16)));
}

#[test]
fn clear_drops_everything() {
    let picker = Picker::halfblocks();
    let mut cache = PageCache::new();
    cache.insert_image(0, 1_000_000, flat(16, 16, 200));
    cache.insert_text(0, String::from("first page"));
    assert!(cache.get_protocol(0, false, 100, (0, 0), &picker, area()).is_some());
    cache.clear();
    assert!(!cache.has_image_at_scale(0, 1_000_000));
    assert_eq!(cache.image_dims(0), None);
    assert!(!cache.has_protocol(0, false));
    assert!(!cache.has_text(0));
}

#[test]
fn evict_distant_drops_the_far_pages() {
    let picker = Picker::halfblocks();
    let mut cache = PageCache::new();
    for page in [0usize, 4, 5, 10, 15, 16, 40] {
        cache.insert_image(page, 1_000_000, flat(16, 16, page as u8));
    }
    assert!(cache.get_protocol(40, false, 100, (0, 0), &picker, area()).is_some());
    assert!(cache.get_protocol(10, true, 100, (0, 0), &picker, area()).is_some());
    cache.evict_distant(10, 5);
    for page in [0usize, 4, 16, 40] {
        assert!(!cache.has_image_at_scale(page, 1_000_000));
        assert_eq!(cache.image_dims(page), None);
        assert!(!cache.has_protocol(page, false));
        assert!(!cache.has_protocol(page, true));
    }
    for page in [5usize, 10, 15] {
        assert!(cache.has_image_at_scale(page, 1_000_000));
    }
    assert!(cache.has_protocol(10, true));
    cache.evict_distant(usize::MAX, 0);
    assert_eq!(cache.image_dims(10), None);
}

#[test]
fn evict_with_a_wide_radius_keeps_all() {
    let mut cache = PageCache::new();
    cache.insert_image(0, 1_000_000, flat(2, 2, 0));
    cache.insert_image(usize::MAX, 1_000_000, flat(2, 2, 0));
    cache.evict_distant(7, usize::MAX);
    assert!(cache.has_image_at_scale(0, 1_000_000));
    assert!(cache.has_image_at_scale(usize::MAX, 1_000_000));
}

#[test]
fn texts_are_kept_by_page() {
    let mut cache = PageCache::new();
    cache.insert_text(2, String::from("two"));
    assert!(cache.has_text(2));
    assert!(!cache.has_text(3));
    assert_eq!(cache.page_text(2), Some(&String::from("two")));
    assert_eq!(cache.page_text(3), None);
    cache.insert_text(2, String::from("zwei"));
    assert_eq!(cache.page_text(2), Some(&String::from("zwei")));
    cache.evict_distant(100, 1);
    assert!(cache.has_text(2));
}

#[test]
fn encoder_takes_only_what_fits() {
    let picker = Picker::halfblocks();
    let img = flat(16, 16, 3);
    assert!(can_encode(&img, area(), (10, 20)));
    assert!(!can_encode(&img, CellRect { x: 0, y: 0, width: 0, height: 4 }, (10, 20)));
    assert!(!can_encode(&img, CellRect { x: 0, y: 0, width: 8, height: 0 }, (10, 20)));
    assert!(!can_encode(&img, area(), (0, 20)));
    assert!(!can_encode(&img, area(), (10, 0)));
    assert!(!can_encode(&flat(0, 0, 0), area(), (10, 20)));
    assert!(!can_encode(&img, CellRect { x: 0, y: 0, width: 7000, height: 4 }, (10, 20)));
    assert!(!can_encode(&img, CellRect { x: 0, y: 0, width: 300, height: 300 }, (10, 20)));
    assert!(!can_encode(&img, CellRect { x: 65000, y: 0, width: 600, height: 4 }, (10, 20)));
    assert!(encode(&picker, flat(16, 16, 3), CellRect { x: 0, y: 0, width: 0, height: 4 }).is_none());
    assert!(encode(&picker, flat(16, 16, 3), area()).is_some());
}

#[test]
fn a_picture_the_encoder_cannot_take_is_not_ready() {
    let picker = Picker::halfblocks();
    let mut cache = PageCache::new();
    cache.insert_image(0, 1_000_000, flat(16, 16, 200));
    let nowhere = CellRect { x: 0, y: 0, width: 0, height: 0 };
    assert!(cache.get_protocol(0, false, 100, (0, 0), &picker, nowhere).is_none());
    assert!(!cache.has_protocol(0, false));
    // the next call tries again
    assert!(cache.get_protocol(0, false, 100, (0, 0), &picker, area()).is_some());
}
