use rester::ui::paragraph::{clamp_scroll, get_or_build, make_cache, paragraph, WrappedCache};

const TEXT: &str = "Memory safety without garbage collection.";

#[test]
fn make_cache_wraps_and_counts_line_breaks() {
    let cache = make_cache(TEXT, 7, 15);
    assert_eq!(cache.as_str(), "Memory safety\nwithout garbage\ncollection.");
    assert_eq!(cache.get_lines(), 2);
    assert_eq!(cache.get_version(), 7);
    assert_eq!(cache.get_width(), 15);
}

#[test]
fn width_zero_leaves_the_text_as_it_is() {
    let cache = make_cache("a b c\nd e f", 1, 0);
    assert_eq!(cache.as_str(), "a b c\nd e f");
    assert_eq!(cache.get_lines(), 1);
}

#[test]
fn from_wrapped_counts_line_breaks() {
    assert_eq!(WrappedCache::from_wrapped(0, 10, "".to_string()).get_lines(), 0);
    assert_eq!(WrappedCache::from_wrapped(0, 10, "a\nb\n".to_string()).get_lines(), 2);
    let many = "\n".repeat(70000);
    assert_eq!(WrappedCache::from_wrapped(0, 10, many).get_lines(), 65535);
}

#[test]
fn same_version_and_width_reuse_the_cache() {
    let (first, built) = get_or_build(TEXT, 3, 15, None);
    assert!(built);
    let text = first.as_str().to_string();
    let (second, built) = get_or_build(TEXT, 3, 15, Some(first));
    assert!(!built);
    assert_eq!(second.as_str(), text);
    // The kept form is handed back as it is, whatever text comes with it.
    let (third, built) = get_or_build("something else", 3, 15, Some(second));
    assert!(!built);
    assert_eq!(third.as_str(), text);
}

#[test]
fn another_version_or_width_wraps_anew() {
    let (first, _) = get_or_build(TEXT, 3, 15, None);
    let (second, built) = get_or_build("short text", 4, 15, Some(first));
    assert!(built);
    assert_eq!(second.as_str(), "short text");
    assert_eq!(second.get_version(), 4);
    let (third, built) = get_or_build("short text", 4, 5, Some(second));
    assert!(built);
    assert_eq!(third.as_str(), "short\ntext");
    assert_eq!(third.get_width(), 5);
}

#[test]
fn scroll_is_clamped_to_what_is_left_to_scroll() {
    assert_eq!(clamp_scroll(10, 2, 5), 0);
    assert_eq!(clamp_scroll(10, 20, 5), 10);
    assert_eq!(clamp_scroll(16, 20, 5), 16);
    assert_eq!(clamp_scroll(17, 20, 5), 16);
    assert_eq!(clamp_scroll(100, 20, 5), 16);
    assert_eq!(clamp_scroll(3, 4, 5), 0);
    assert_eq!(clamp_scroll(3, 5, 5), 1);
    assert_eq!(clamp_scroll(0, 20, 5), 0);
}

#[test]
fn scroll_clamp_stays_within_sixteen_bits() {
    assert_eq!(clamp_scroll(65535, 65535, 0), 65535);
    assert_eq!(clamp_scroll(5, 65535, 0), 5);
    assert_eq!(clamp_scroll(65535, 65535, 1), 65535);
    assert_eq!(clamp_scroll(65535, 65535, 2), 65534);
    assert_eq!(clamp_scroll(65535, 0, 0), 1);
}

#[test]
fn scroll_clamp_holds_for_all_small_values() {
    for lines in 0u16..12 {
        for height in 0u16..12 {
            let limit = if lines + 1 > height { lines + 1 - height } else { 0 };
            for scroll in 0u16..20 {
                let shown = clamp_scroll(scroll, lines, height);
                assert!(shown <= limit);
                assert_eq!(shown, scroll.min(limit));
            }
        }
    }
}

#[test]
fn paragraph_lays_out_text_and_scroll() {
    let (scroll, cache) = paragraph(TEXT, 1, 15, 2, 9, None);
    assert_eq!(cache.get_lines(), 2);
    assert_eq!(scroll, 1);
    let (scroll, cache) = paragraph(TEXT, 1, 15, 10, 9, Some(cache));
    assert_eq!(scroll, 0);
    assert_eq!(cache.as_str(), "Memory safety\nwithout garbage\ncollection.");
}
