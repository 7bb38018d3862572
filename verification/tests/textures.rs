use rusterer::texture_helper::get_texture_from_bmp;

/// A 2 x 2, 24-bit bitmap, rows stored bottom-up, BGR channel order:
/// top row red then green, bottom row blue then white.
fn tiny_bmp() -> Vec<u8> {
    let mut b: Vec<u8> = Vec::new();
    // file header
    b.extend_from_slice(b"BM");
    b.extend_from_slice(&70u32.to_le_bytes()); // file size
    b.extend_from_slice(&0u32.to_le_bytes()); // reserved
    b.extend_from_slice(&54u32.to_le_bytes()); // pixel data offset
    // info header
    b.extend_from_slice(&40u32.to_le_bytes()); // header size
    b.extend_from_slice(&2i32.to_le_bytes()); // width
    b.extend_from_slice(&2i32.to_le_bytes()); // height (bottom-up)
    b.extend_from_slice(&1u16.to_le_bytes()); // planes
    b.extend_from_slice(&24u16.to_le_bytes()); // bits per pixel
    b.extend_from_slice(&0u32.to_le_bytes()); // compression
    b.extend_from_slice(&16u32.to_le_bytes()); // image size
    b.extend_from_slice(&0u32.to_le_bytes()); // x pixels per meter
    b.extend_from_slice(&0u32.to_le_bytes()); // y pixels per meter
    b.extend_from_slice(&0u32.to_le_bytes()); // colors used
    b.extend_from_slice(&0u32.to_le_bytes()); // important colors
    // bottom row: blue, white, two padding bytes
    b.extend_from_slice(&[0xff, 0x00, 0x00, 0xff, 0xff, 0xff, 0, 0]);
    // top row: red, green, two padding bytes
    b.extend_from_slice(&[0x00, 0x00, 0xff, 0x00, 0xff, 0x00, 0, 0]);
    b
}

#[test]
fn bmp_decodes_into_packed_argb_words() {
    let bytes = tiny_bmp();
    let t = get_texture_from_bmp(&bytes).expect("the bitmap decodes");
    assert_eq!(t.width, 2);
    assert_eq!(t.height, 2);
    // the color words come top row first whatever the file's row order
    assert_eq!(t.pixels, vec![0xffff0000, 0xff00ff00, 0xff0000ff, 0xffffffff]);
}

/// The same image stored top-down (negative height): rows come top first.
fn tiny_bmp_top_down() -> Vec<u8> {
    let mut b = tiny_bmp();
    // height field at offset 22 becomes -2
    b[22..26].copy_from_slice(&(-2i32).to_le_bytes());
    // top row first: red, green, then blue, white
    b[54..70].copy_from_slice(&[
        0x00, 0x00, 0xff, 0x00, 0xff, 0x00, 0, 0, // red, green, padding
        0xff, 0x00, 0x00, 0xff, 0xff, 0xff, 0, 0, // blue, white, padding
    ]);
    b
}

#[test]
fn top_down_bmp_decodes_top_row_first() {
    let bytes = tiny_bmp_top_down();
    let t = get_texture_from_bmp(&bytes).expect("the bitmap decodes");
    assert_eq!(t.width, 2);
    assert_eq!(t.height, 2);
    assert_eq!(t.pixels, vec![0xffff0000, 0xff00ff00, 0xff0000ff, 0xffffffff]);
}

#[test]
fn garbage_bytes_do_not_decode() {
    assert!(get_texture_from_bmp(b"not a bitmap at all").is_none());
    assert!(get_texture_from_bmp(&[]).is_none());
}
