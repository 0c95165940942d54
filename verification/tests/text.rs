use gpu_util::TextContent;

fn ne_bytes(codes: &[u32]) -> Vec<u8> {
    codes.iter().flat_map(|w| w.to_ne_bytes()).collect()
}

#[test]
fn new_content_is_empty() {
    let t = TextContent::new(16);
    assert_eq!(t.max_chars(), 16);
    assert_eq!(t.text_len(), 0);
    assert_eq!(t.buffer_size(), 64);
}

#[test]
fn set_text_ascii_keeps_codes_and_pads_with_zeros() {
    let mut t = TextContent::new(4);
    let bytes = t.set_text("Hi");
    assert_eq!(t.text_len(), 2);
    assert_eq!(t.max_chars(), 4);
    assert_eq!(bytes, ne_bytes(&[72, 105, 0, 0]));
}

#[test]
fn set_text_non_ascii_becomes_question_mark() {
    let mut t = TextContent::new(6);
    let bytes = t.set_text("héllo€");
    assert_eq!(t.text_len(), 6);
    assert_eq!(bytes, ne_bytes(&[104, 63, 108, 108, 111, 63]));
}

#[test]
fn set_text_truncates_to_max_chars() {
    let mut t = TextContent::new(3);
    let bytes = t.set_text("FPS: 60");
    assert_eq!(t.text_len(), 3);
    assert_eq!(bytes, ne_bytes(&[70, 80, 83]));
}

#[test]
fn set_text_empty_text_is_all_zeros() {
    let mut t = TextContent::new(2);
    let bytes = t.set_text("");
    assert_eq!(t.text_len(), 0);
    assert_eq!(bytes, ne_bytes(&[0, 0]));
}

#[test]
fn set_text_with_no_room_shows_nothing() {
    let mut t = TextContent::new(0);
    let bytes = t.set_text("abc");
    assert_eq!(t.text_len(), 0);
    assert!(bytes.is_empty());
    assert_eq!(t.buffer_size(), 0);
}

#[test]
fn set_text_replaces_previous_text() {
    let mut t = TextContent::new(4);
    t.set_text("long");
    let bytes = t.set_text("ok");
    assert_eq!(t.text_len(), 2);
    assert_eq!(bytes, ne_bytes(&[111, 107, 0, 0]));
}

#[test]
fn set_text_control_and_del_characters_are_ascii() {
    let mut t = TextContent::new(3);
    let bytes = t.set_text("\t\u{7f}\u{80}");
    assert_eq!(bytes, ne_bytes(&[9, 127, 63]));
}

#[test]
fn set_text_codes_always_index_the_glyph_table() {
    let g = gpu_util::glyph::build_glyph_table();
    let mut t = TextContent::new(8);
    let bytes = t.set_text("ñ→Ωx");
    for chunk in bytes.chunks(4) {
        let code = u32::from_ne_bytes([chunk[0], chunk[1], chunk[2], chunk[3]]) as usize;
        assert!(code < g.len());
    }
    assert_eq!(g[0], 0);
}
