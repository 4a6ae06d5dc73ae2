use a_fast_clipboard::clip::Clip;
use a_fast_clipboard::image::{
    build_thumbnail_rgba, can_unpack, decode_image_bytes, decoded_pixels, pack_pixels,
    unpack_pixels, ImageError, THUMBNAIL_SIZE,
};

fn clip(encoding: &str, bytes: Option<Vec<u8>>) -> Clip {
    Clip {
        id: 1,
        kind: "image".to_string(),
        text: String::new(),
        image_bytes: bytes,
        image_encoding: encoding.to_string(),
        image_width: Some(1),
        image_height: Some(1),
        thumbnail_bytes: None,
        thumbnail_width: None,
        thumbnail_height: None,
        created_at: 0,
        last_used_at: None,
        use_count: 0,
        pinned: false,
    }
}

#[test]
fn plain_pixels_are_taken_as_they_are() {
    assert_eq!(decode_image_bytes(&clip("rgba", Some(vec![1, 2, 3, 4]))).unwrap(), vec![1, 2, 3, 4]);
}

#[test]
fn packed_pixels_are_unpacked() {
    let pixels: Vec<u8> = (0..4000u32).map(|i| (i / 100) as u8).collect();
    let packed = pack_pixels(&pixels);
    assert_ne!(packed, pixels);
    assert!(packed.len() < pixels.len());
    assert_eq!(decode_image_bytes(&clip("lz4-rgba", Some(packed))).unwrap(), pixels);
    let none = pack_pixels(&vec![]);
    assert_eq!(decode_image_bytes(&clip("lz4-rgba", Some(none))).unwrap(), Vec::<u8>::new());
}

#[test]
fn pixels_that_cannot_be_had() {
    let missing = decode_image_bytes(&clip("rgba", None)).unwrap_err();
    assert!(matches!(missing, ImageError::MissingData));
    assert_eq!(missing.message(), "image clip is missing image data");
    let damaged = decode_image_bytes(&clip("lz4-rgba", Some(vec![9]))).unwrap_err();
    assert!(matches!(damaged, ImageError::Damaged(_)));
    assert_eq!(
        damaged.message(),
        "failed to decompress image clipboard data: expected another byte, found none"
    );
    let unknown = decode_image_bytes(&clip("png", Some(vec![9]))).unwrap_err();
    assert_eq!(unknown.message(), "unsupported image encoding: png");
}

#[test]
fn lengths_of_packed_bytes_are_counted_first() {
    for bytes in [vec![], vec![7; 100_000], (0..70_000u32).map(|i| (i * i) as u8).collect()] {
        assert!(can_unpack(&pack_pixels(&bytes)));
    }
    assert!(can_unpack(&vec![1, 2, 3]));
    let mut packed = vec![1, 0, 0, 0, 0xF0];
    packed.resize(packed.len() + 16_843_010, 0xFF);
    assert!(!can_unpack(&packed));
    assert_eq!(unpack_pixels(&packed), Err("a length is out of range".to_string()));
    let error = decode_image_bytes(&clip("lz4-rgba", Some(packed))).unwrap_err();
    assert_eq!(
        error.message(),
        "failed to decompress image clipboard data: a length is out of range"
    );
    // Sixteen literals, and a match that lies one byte back and whose length
    // goes on for too long.
    let mut packed = vec![100, 0, 0, 0, 0xFF, 1];
    packed.extend_from_slice(&[7; 16]);
    packed.extend_from_slice(&[1, 0]);
    packed.resize(packed.len() + 16_843_010, 0xFF);
    assert!(!can_unpack(&packed));
    packed.truncate(1_000_000);
    assert!(can_unpack(&packed));
    assert!(unpack_pixels(&packed).is_err());
}

#[test]
fn earlier_errors_are_told_before_lengths() {
    let message = |front: &[u8]| {
        let mut packed = front.to_vec();
        packed.resize(packed.len() + 16_843_010, 0xFF);
        assert!(can_unpack(&packed));
        unpack_pixels(&packed).unwrap_err()
    };
    let literals = [7; 16];
    assert_eq!(
        message(&[&[1, 0, 0, 0, 0xFF, 1], &literals[..], &[1, 0]].concat()),
        "provided output is too small for the decompressed data, actual 1, expected 16"
    );
    assert_eq!(
        message(&[&[100, 0, 0, 0, 0xFF, 1], &literals[..], &[0, 0]].concat()),
        "0 is not a valid match offset"
    );
    assert_eq!(
        message(&[&[100, 0, 0, 0, 0xF0, 1], &literals[..], &[17, 0, 0xF0]].concat()),
        "the offset to copy is not contained in the decompressed buffer"
    );
    assert_eq!(
        message(&[&[18, 0, 0, 0, 0xF0, 1], &literals[..], &[1, 0, 0xF0]].concat()),
        "provided output is too small for the decompressed data, actual 18, expected 20"
    );
}

#[test]
fn white_image_is_given_back() {
    let bytes = vec![0xFF; 3_000_000];
    let packed = pack_pixels(&bytes);
    assert!(can_unpack(&packed));
    assert_eq!(unpack_pixels(&packed), Ok(bytes));
}

#[test]
fn given_unpacked_bytes_are_the_pixels() {
    let packed = clip("lz4-rgba", Some(vec![9]));
    assert_eq!(decoded_pixels(&packed, Ok(vec![1, 2])).unwrap(), vec![1, 2]);
    let damaged = decoded_pixels(&packed, Err("short".to_string())).unwrap_err();
    assert_eq!(damaged.message(), "failed to decompress image clipboard data: short");
    let plain = clip("rgba", Some(vec![9]));
    assert_eq!(decoded_pixels(&plain, Ok(vec![1, 2])).unwrap(), vec![9]);
    let missing = decoded_pixels(&clip("rgba", None), Ok(vec![]));
    assert!(matches!(missing, Err(ImageError::MissingData)));
}

#[test]
fn thumbnail_stands_in_the_middle() {
    // Two pixels side by side, drawn as a strip of forty-eight by twenty-four.
    let bytes = vec![1, 2, 3, 4, 5, 6, 7, 8];
    let (drawn, width, height) = build_thumbnail_rgba(2, 1, &bytes, 48, 24).unwrap();
    assert_eq!((width, height), (48, 48));
    assert_eq!(drawn.len(), THUMBNAIL_SIZE * THUMBNAIL_SIZE * 4);
    let at = |x: usize, y: usize| drawn[(y * 48 + x) * 4..(y * 48 + x) * 4 + 4].to_vec();
    assert_eq!(at(0, 11), vec![0, 0, 0, 0]);
    assert_eq!(at(0, 12), vec![1, 2, 3, 4]);
    assert_eq!(at(23, 35), vec![1, 2, 3, 4]);
    assert_eq!(at(24, 12), vec![5, 6, 7, 8]);
    assert_eq!(at(47, 36), vec![0, 0, 0, 0]);
}

#[test]
fn thumbnail_sides_are_brought_into_range() {
    let bytes = vec![7; 4];
    let (drawn, _, _) = build_thumbnail_rgba(1, 1, &bytes, 0, 1000).unwrap();
    let column: Vec<u8> = (0..48).map(|y| drawn[(y * 48 + 23) * 4]).collect();
    assert_eq!(column, vec![7; 48]);
    assert_eq!(drawn[22 * 4], 0);
    assert_eq!(drawn[24 * 4], 0);
}

#[test]
fn no_thumbnail_without_all_pixels() {
    assert!(build_thumbnail_rgba(0, 5, &vec![0; 100], 1, 1).is_none());
    assert!(build_thumbnail_rgba(5, 0, &vec![0; 100], 1, 1).is_none());
    assert!(build_thumbnail_rgba(2, 2, &vec![0; 15], 1, 1).is_none());
    assert!(build_thumbnail_rgba(2, 2, &vec![0; 16], 1, 1).is_some());
    assert!(build_thumbnail_rgba(usize::MAX, 2, &vec![0; 16], 1, 1).is_none());
    assert!(build_thumbnail_rgba(usize::MAX / 2, 2, &vec![0; 16], 1, 1).is_none());
}
