use a_fast_clipboard::icon::{
    app_icon_rgba, dib_icon_image, tray_icon_pixels, write_app_icon, Pixel,
};

fn pixel(n: u8) -> Pixel {
    Pixel { red: n, green: n + 1, blue: n + 2, alpha: n + 3 }
}

#[test]
fn pixels_become_bytes() {
    assert_eq!(app_icon_rgba(&vec![pixel(1), pixel(9)]), vec![1, 2, 3, 4, 9, 10, 11, 12]);
    assert!(app_icon_rgba(&vec![]).is_empty());
}

#[test]
fn tray_icon() {
    let bytes = tray_icon_pixels();
    assert_eq!(bytes.len(), 32 * 32 * 4);
    let at = |x: usize, y: usize| bytes[(y * 32 + x) * 4..(y * 32 + x) * 4 + 4].to_vec();
    assert_eq!(at(0, 0), vec![0, 0, 0, 0]);
    assert_eq!(at(4, 3), vec![31, 99, 201, 255]);
    assert_eq!(at(9, 1), vec![43, 119, 230, 255]);
    assert_eq!(at(22, 16), vec![255, 255, 255, 255]);
    assert_eq!(at(13, 20), vec![255, 255, 255, 255]);
    assert_eq!(at(28, 28), vec![0, 0, 0, 0]);
}

#[test]
fn icon_image_is_bottom_up() {
    let image = dib_icon_image(2, &vec![pixel(10), pixel(20), pixel(30), pixel(40)]);
    assert_eq!(image.len(), 40 + 16 + 8);
    assert_eq!(image[0..4], [40, 0, 0, 0]);
    assert_eq!(image[4..12], [2, 0, 0, 0, 4, 0, 0, 0]);
    assert_eq!(image[12..16], [1, 0, 32, 0]);
    assert_eq!(image[20..24], [16, 0, 0, 0]);
    assert_eq!(image[40..48], [32, 31, 30, 33, 42, 41, 40, 43]);
    assert_eq!(image[48..56], [12, 11, 10, 13, 22, 21, 20, 23]);
    assert_eq!(image[56..], [0; 8]);
}

#[test]
fn icon_file_lists_its_images() {
    let file = write_app_icon(&vec![(16, vec![1, 2, 3]), (32, vec![4, 5])]);
    assert_eq!(file[0..6], [0, 0, 1, 0, 2, 0]);
    assert_eq!(file[6..22], [16, 16, 0, 0, 1, 0, 32, 0, 3, 0, 0, 0, 38, 0, 0, 0]);
    assert_eq!(file[22..38], [32, 32, 0, 0, 1, 0, 32, 0, 2, 0, 0, 0, 41, 0, 0, 0]);
    assert_eq!(file[38..], [1, 2, 3, 4, 5]);
}
