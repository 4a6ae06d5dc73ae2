use a_fast_clipboard::digest::{content_hash, content_hash_image, digest_text};

#[test]
fn known_digests() {
    assert_eq!(
        digest_text(&b"abc".to_vec()),
        "ba7816bf8f01cfea414140de5dae2223b00361a396177a9cb410ff61f20015ad"
    );
    assert_eq!(
        digest_text(&vec![]),
        "e3b0c44298fc1c149afbf4c8996fb92427ae41e4649b934ca495991b7852b855"
    );
}

#[test]
fn text_hash_covers_kind_and_text() {
    assert_eq!(content_hash("text", "hi"), digest_text(&b"text\0hi".to_vec()));
    assert_ne!(content_hash("text", "hi"), content_hash("image", "hi"));
    assert_ne!(content_hash("text", "hi"), content_hash("text", "ho"));
    assert_eq!(content_hash("text", "é"), digest_text(&vec![b't', b'e', b'x', b't', 0, 0xc3, 0xa9]));
}

#[test]
fn image_hash_covers_sides_and_pixels() {
    let mut material = b"image\0".to_vec();
    material.extend_from_slice(&2usize.to_le_bytes());
    material.extend_from_slice(&300usize.to_le_bytes());
    material.extend_from_slice(&[1, 2, 3]);
    assert_eq!(content_hash_image(2, 300, &vec![1, 2, 3]), digest_text(&material));
}
