//! Icons: the pixels of the tray icon, and the icon file of the program.

use vstd::prelude::*;

verus! {

/// A pixel.
#[derive(Debug, Clone, Copy, PartialEq, Eq, Structural)]
pub struct Pixel {
    pub red: u8,
    pub green: u8,
    pub blue: u8,
    pub alpha: u8,
}

impl Pixel {
    /// The bytes of the pixel: red, green, blue and alpha.
    pub open spec fn rgba(self) -> Seq<u8> {
        seq![self.red, self.green, self.blue, self.alpha]
    }

    /// The bytes of the pixel: blue, green, red and alpha.
    pub open spec fn bgra(self) -> Seq<u8> {
        seq![self.blue, self.green, self.red, self.alpha]
    }
}

/// The bytes of pixels, one after the other.
pub open spec fn rgba_bytes(pixels: Seq<Pixel>) -> Seq<u8>
    decreases pixels.len(),
{
    if pixels.len() == 0 {
        Seq::empty()
    } else {
        rgba_bytes(pixels.drop_last()) + pixels.last().rgba()
    }
}

/// The bytes of pixels in the order of icon files, one after the other.
pub open spec fn bgra_bytes(pixels: Seq<Pixel>) -> Seq<u8>
    decreases pixels.len(),
{
    if pixels.len() == 0 {
        Seq::empty()
    } else {
        bgra_bytes(pixels.drop_last()) + pixels.last().bgra()
    }
}

/// There are four bytes for each pixel.
pub proof fn four_bytes_for_each_pixel(pixels: Seq<Pixel>)
    ensures
        rgba_bytes(pixels).len() == 4 * pixels.len(),
        bgra_bytes(pixels).len() == 4 * pixels.len(),
    decreases pixels.len(),
{
    if pixels.len() > 0 {
        four_bytes_for_each_pixel(pixels.drop_last());
    }
}

/// The bytes of the pixels of a square icon, row by row.
pub fn app_icon_rgba(pixels: &Vec<Pixel>) -> (r: Vec<u8>)
    ensures
        r@ == rgba_bytes(pixels@),
        r@.len() == 4 * pixels@.len(),
{
    let mut bytes: Vec<u8> = Vec::new();
    let mut i: usize = 0;
    assert(bytes@ =~= rgba_bytes(pixels@.take(0)));
    while i < pixels.len()
        invariant
            i <= pixels@.len(),
            bytes@ == rgba_bytes(pixels@.take(i as int)),
        decreases pixels@.len() - i,
    {
        let pixel = pixels[i];
        let ghost before = bytes@;
        bytes.push(pixel.red);
        bytes.push(pixel.green);
        bytes.push(pixel.blue);
        bytes.push(pixel.alpha);
        proof {
            assert(bytes@ =~= before + pixel.rgba());
            assert(pixels@.take(i + 1).drop_last() =~= pixels@.take(i as int));
        }
        i = i + 1;
    }
    proof {
        assert(pixels@.take(pixels@.len() as int) =~= pixels@);
        four_bytes_for_each_pixel(pixels@);
    }
    bytes
}

// ---------------------------------------------------------------------------
// The tray icon
// ---------------------------------------------------------------------------

/// The width and the height of the tray icon.
pub const TRAY_ICON_SIZE: usize = 32;

/// A pixel of the tray icon: a white cross on a blue board with a lighter tab.
pub open spec fn tray_pixel(x: int, y: int) -> Pixel {
    if 9 <= x < 23 && 13 <= y < 17 || 13 <= x < 17 && 9 <= y < 21 {
        Pixel { red: 255, green: 255, blue: 255, alpha: 255 }
    } else if 9 <= x < 23 && 1 <= y < 7 {
        Pixel { red: 43, green: 119, blue: 230, alpha: 255 }
    } else if 4 <= x < 28 && 3 <= y < 29 {
        Pixel { red: 31, green: 99, blue: 201, alpha: 255 }
    } else {
        Pixel { red: 0, green: 0, blue: 0, alpha: 0 }
    }
}

/// The pixels of the tray icon, row by row.
pub open spec fn tray_pixels() -> Seq<Pixel> {
    Seq::new(
        (TRAY_ICON_SIZE * TRAY_ICON_SIZE) as nat,
        |i: int| tray_pixel(i % (TRAY_ICON_SIZE as int), i / (TRAY_ICON_SIZE as int)),
    )
}

fn tray_icon_pixel(x: usize, y: usize) -> (r: Pixel)
    ensures
        r == tray_pixel(x as int, y as int),
{
    let inside = 4 <= x && x < 28 && 3 <= y && y < 29;
    let tab = 9 <= x && x < 23 && 1 <= y && y < 7;
    let mark = 9 <= x && x < 23 && 13 <= y && y < 17 || 13 <= x && x < 17 && 9 <= y && y < 21;
    if mark {
        Pixel { red: 255, green: 255, blue: 255, alpha: 255 }
    } else if tab {
        Pixel { red: 43, green: 119, blue: 230, alpha: 255 }
    } else if inside {
        Pixel { red: 31, green: 99, blue: 201, alpha: 255 }
    } else {
        Pixel { red: 0, green: 0, blue: 0, alpha: 0 }
    }
}

/// The bytes of the tray icon.
pub fn tray_icon_pixels() -> (r: Vec<u8>)
    ensures
        r@ == rgba_bytes(tray_pixels()),
        r@.len() == TRAY_ICON_SIZE * TRAY_ICON_SIZE * 4,
{
    let mut pixels: Vec<Pixel> = Vec::new();
    let mut i: usize = 0;
    while i < TRAY_ICON_SIZE * TRAY_ICON_SIZE
        invariant
            i <= TRAY_ICON_SIZE * TRAY_ICON_SIZE,
            pixels@ == tray_pixels().take(i as int),
        decreases TRAY_ICON_SIZE * TRAY_ICON_SIZE - i,
    {
        pixels.push(tray_icon_pixel(i % TRAY_ICON_SIZE, i / TRAY_ICON_SIZE));
        assert(tray_pixels().take(i + 1) =~= tray_pixels().take(i as int).push(
            tray_pixels()[i as int],
        ));
        i = i + 1;
    }
    assert(pixels@ =~= tray_pixels());
    app_icon_rgba(&pixels)
}

// ---------------------------------------------------------------------------
// The icon file
// ---------------------------------------------------------------------------

/// The bytes of a sixteen-bit number, the low one first.
pub open spec fn le16(n: int) -> Seq<u8> {
    seq![(n % 256) as u8, (n / 256 % 256) as u8]
}

/// The bytes of a number of thirty-two bits, the low one first.
pub open spec fn le32(n: int) -> Seq<u8> {
    seq![
        (n % 256) as u8,
        (n / 256 % 256) as u8,
        (n / 65536 % 256) as u8,
        (n / 16777216 % 256) as u8,
    ]
}

fn push_u16(bytes: &mut Vec<u8>, value: u16)
    ensures
        final(bytes)@ == old(bytes)@ + le16(value as int),
{
    bytes.push((value % 256) as u8);
    bytes.push((value / 256 % 256) as u8);
    assert(bytes@ =~= old(bytes)@ + le16(value as int));
}

fn push_u32(bytes: &mut Vec<u8>, value: u32)
    ensures
        final(bytes)@ == old(bytes)@ + le32(value as int),
{
    bytes.push((value % 256) as u8);
    bytes.push((value / 256 % 256) as u8);
    bytes.push((value / 65536 % 256) as u8);
    bytes.push((value / 16777216 % 256) as u8);
    assert(bytes@ =~= old(bytes)@ + le32(value as int));
}

/// The row of the given number, counted from the bottom.
pub open spec fn row_from_bottom(pixels: Seq<Pixel>, size: int, n: int) -> Seq<Pixel> {
    pixels.subrange((size - 1 - n) * size, (size - n) * size)
}

/// The bytes of the lowest rows of a square image, from the bottom up.
pub open spec fn rows_from_bottom(pixels: Seq<Pixel>, size: int, count: int) -> Seq<u8>
    decreases count,
{
    if count <= 0 {
        Seq::empty()
    } else {
        rows_from_bottom(pixels, size, count - 1) + bgra_bytes(
            row_from_bottom(pixels, size, count - 1),
        )
    }
}

/// What stands before the pixels of an image in an icon file.
pub open spec fn image_header(size: int) -> Seq<u8> {
    le32(40) + le32(size) + le32(size * 2) + le16(1) + le16(32) + le32(0) + le32(size * size * 4)
        + le32(0) + le32(0) + le32(0) + le32(0)
}

/// How many bytes the mask of an image takes: one bit for each pixel, each row
/// on a boundary of four bytes.
pub open spec fn mask_len(size: int) -> int {
    (size + 31) / 32 * 4 * size
}

/// An image of an icon file: a header, the pixels from the bottom up, and an
/// empty mask.
pub open spec fn icon_image(size: int, pixels: Seq<Pixel>) -> Seq<u8> {
    image_header(size) + rows_from_bottom(pixels, size, size) + Seq::new(
        mask_len(size) as nat,
        |i: int| 0u8,
    )
}

/// The largest side of an image whose pixels can be counted in an icon file.
pub const MAX_ICON_SIZE: u32 = 32_767;

/// An image of an icon file.
pub fn dib_icon_image(size: u32, pixels: &Vec<Pixel>) -> (r: Vec<u8>)
    requires
        size <= MAX_ICON_SIZE,
        pixels@.len() == size * size,
    ensures
        r@ == icon_image(size as int, pixels@),
{
    proof {
        assert(size * size <= 32_767 * 32_767) by (nonlinear_arith)
            requires
                size <= 32_767,
        ;
        assert(0 <= (size + 31) / 32 * 4 * size <= 4096 * 32_767) by (nonlinear_arith)
            requires
                0 <= size <= 32_767,
        ;
    }
    let mut image: Vec<u8> = Vec::new();
    push_u32(&mut image, 40);
    push_u32(&mut image, size);
    push_u32(&mut image, size * 2);
    push_u16(&mut image, 1);
    push_u16(&mut image, 32);
    push_u32(&mut image, 0);
    push_u32(&mut image, size * size * 4);
    push_u32(&mut image, 0);
    push_u32(&mut image, 0);
    push_u32(&mut image, 0);
    push_u32(&mut image, 0);
    assert(image@ =~= image_header(size as int));
    let mut n: u32 = 0;
    while n < size
        invariant
            n <= size <= MAX_ICON_SIZE,
            pixels@.len() == size * size,
            image@ == image_header(size as int) + rows_from_bottom(
                pixels@,
                size as int,
                n as int,
            ),
        decreases size - n,
    {
        push_row(&mut image, pixels, size, n);
        n = n + 1;
        assert(image@ =~= image_header(size as int) + rows_from_bottom(
            pixels@,
            size as int,
            n as int,
        ));
    }
    let mask: u32 = (size + 31) / 32 * 4 * size;
    let ghost drawn = image@;
    let mut i: u32 = 0;
    while i < mask
        invariant
            i <= mask,
            image@ == drawn + Seq::new(i as nat, |k: int| 0u8),
        decreases mask - i,
    {
        image.push(0);
        i = i + 1;
        assert(image@ =~= drawn + Seq::new(i as nat, |k: int| 0u8));
    }
    assert(image@ =~= icon_image(size as int, pixels@));
    image
}

/// Appends the bytes of a row, which is counted from the bottom.
fn push_row(image: &mut Vec<u8>, pixels: &Vec<Pixel>, size: u32, n: u32)
    requires
        n < size <= MAX_ICON_SIZE,
        pixels@.len() == size * size,
    ensures
        final(image)@ == old(image)@ + bgra_bytes(
            row_from_bottom(pixels@, size as int, n as int),
        ),
{
    proof {
        assert(0 <= (size - 1 - n) * size && (size - n) * size <= size * size && (size - n) * size
            == (size - 1 - n) * size + size && size * size <= 32_767 * 32_767) by (nonlinear_arith)
            requires
                0 <= n < size <= 32_767,
        ;
    }
    let start: usize = ((size - 1 - n) * size) as usize;
    let ghost row = row_from_bottom(pixels@, size as int, n as int);
    let mut x: usize = 0;
    assert(image@ =~= old(image)@ + bgra_bytes(row.take(0)));
    while x < size as usize
        invariant
            x <= size <= MAX_ICON_SIZE,
            start <= 32_767 * 32_767,
            start == (size - 1 - n) * size,
            start + size == (size - n) * size,
            start + size <= pixels@.len(),
            row == row_from_bottom(pixels@, size as int, n as int),
            image@ == old(image)@ + bgra_bytes(row.take(x as int)),
        decreases size - x,
    {
        let pixel = pixels[start + x];
        let ghost before = image@;
        image.push(pixel.blue);
        image.push(pixel.green);
        image.push(pixel.red);
        image.push(pixel.alpha);
        proof {
            assert(row[x as int] == pixel);
            assert(row.take(x + 1).drop_last() =~= row.take(x as int));
            assert(image@ =~= before + pixel.bgra());
            assert(image@ =~= old(image)@ + bgra_bytes(row.take(x + 1)));
        }
        x = x + 1;
    }
    assert(row.take(size as int) =~= row);
}

/// The images of an icon file: the side and the bytes of each.
pub open spec fn image_views(images: Seq<(u8, Vec<u8>)>) -> Seq<(u8, Seq<u8>)> {
    Seq::new(images.len(), |i: int| (images[i].0, images[i].1@))
}

/// The bytes of images, one after the other.
pub open spec fn image_data(images: Seq<(u8, Seq<u8>)>) -> Seq<u8>
    decreases images.len(),
{
    if images.len() == 0 {
        Seq::empty()
    } else {
        image_data(images.drop_last()) + images.last().1
    }
}

/// The entry of an image in the directory of an icon file.
pub open spec fn directory_entry(side: u8, len: int, offset: int) -> Seq<u8> {
    seq![side, side, 0u8, 0u8] + le16(1) + le16(32) + le32(len) + le32(offset)
}

/// The entries of the first images in the directory of an icon file, given
/// where the data begins.
pub open spec fn directory(images: Seq<(u8, Seq<u8>)>, start: int) -> Seq<u8>
    decreases images.len(),
{
    if images.len() == 0 {
        Seq::empty()
    } else {
        let before = images.drop_last();
        directory(before, start) + directory_entry(
            images.last().0,
            images.last().1.len() as int,
            start + image_data(before).len(),
        )
    }
}

/// An icon file: its kind and the number of its images, an entry for each
/// image, and the data of the images.
pub open spec fn icon_file(images: Seq<(u8, Seq<u8>)>) -> Seq<u8> {
    le16(0) + le16(1) + le16(images.len() as int) + directory(
        images,
        (6 + images.len() * 16) as int,
    ) + image_data(images)
}

proof fn lemma_data_grows(images: Seq<(u8, Seq<u8>)>, i: int)
    requires
        0 <= i <= images.len(),
    ensures
        image_data(images.take(i)).len() <= image_data(images).len(),
    decreases images.len() - i,
{
    if i < images.len() {
        lemma_data_grows(images, i + 1);
        assert(images.take(i + 1).drop_last() =~= images.take(i));
    } else {
        assert(images.take(i) =~= images);
    }
}

/// Puts an icon file together.
pub fn write_app_icon(images: &Vec<(u8, Vec<u8>)>) -> (r: Vec<u8>)
    requires
        images@.len() <= u16::MAX,
        6 + images@.len() * 16 + image_data(image_views(images@)).len() <= u32::MAX,
    ensures
        r@ == icon_file(image_views(images@)),
{
    let ghost all = image_views(images@);
    let ghost start: int = (6 + images@.len() * 16) as int;
    let mut icon: Vec<u8> = Vec::new();
    push_u16(&mut icon, 0);
    push_u16(&mut icon, 1);
    push_u16(&mut icon, images.len() as u16);
    let ghost head = icon@;
    let mut offset: u32 = 6 + images.len() as u32 * 16;
    let mut i: usize = 0;
    assert(head =~= le16(0) + le16(1) + le16(images@.len() as int));
    assert(icon@ =~= head + directory(all.take(0), start));
    while i < images.len()
        invariant
            i <= images@.len(),
            all == image_views(images@),
            start + image_data(all).len() <= u32::MAX,
            offset == start + image_data(all.take(i as int)).len(),
            icon@ == head + directory(all.take(i as int), start),
        decreases images@.len() - i,
    {
        let image = &images[i];
        let ghost before = icon@;
        proof {
            assert(all.take(i + 1).drop_last() =~= all.take(i as int));
            assert(all.take(i + 1).last() == (image.0, image.1@));
            lemma_data_grows(all, i + 1);
        }
        icon.push(image.0);
        icon.push(image.0);
        icon.push(0);
        icon.push(0);
        push_u16(&mut icon, 1);
        push_u16(&mut icon, 32);
        push_u32(&mut icon, image.1.len() as u32);
        push_u32(&mut icon, offset);
        offset = offset + image.1.len() as u32;
        proof {
            assert(icon@ =~= before + directory_entry(
                image.0,
                image.1@.len() as int,
                start + image_data(all.take(i as int)).len(),
            ));
            assert(icon@ =~= head + directory(all.take(i + 1), start));
        }
        i = i + 1;
    }
    let ghost listed = icon@;
    let mut i: usize = 0;
    assert(all.take(all.len() as int) =~= all);
    assert(icon@ =~= listed + image_data(all.take(0)));
    while i < images.len()
        invariant
            i <= images@.len(),
            all == image_views(images@),
            icon@ == listed + image_data(all.take(i as int)),
        decreases images@.len() - i,
    {
        let ghost before = icon@;
        icon.extend_from_slice(images[i].1.as_slice());
        proof {
            assert(icon@ =~= before + images@[i as int].1@);
            assert(all.take(i + 1).drop_last() =~= all.take(i as int));
            assert(icon@ =~= listed + image_data(all.take(i + 1)));
        }
        i = i + 1;
    }
    assert(all.take(all.len() as int) =~= all);
    icon
}

// ---------------------------------------------------------------------------
// What is read of icons
// ---------------------------------------------------------------------------

/// The bytes of pixels are those of each pixel in its place.
pub proof fn bytes_tell_each_pixel(pixels: Seq<Pixel>, i: int)
    requires
        0 <= i < pixels.len(),
    ensures
        rgba_bytes(pixels).len() == 4 * pixels.len(),
        rgba_bytes(pixels)[4 * i] == pixels[i].red,
        rgba_bytes(pixels)[4 * i + 1] == pixels[i].green,
        rgba_bytes(pixels)[4 * i + 2] == pixels[i].blue,
        rgba_bytes(pixels)[4 * i + 3] == pixels[i].alpha,
        bgra_bytes(pixels).len() == 4 * pixels.len(),
        bgra_bytes(pixels)[4 * i] == pixels[i].blue,
        bgra_bytes(pixels)[4 * i + 1] == pixels[i].green,
        bgra_bytes(pixels)[4 * i + 2] == pixels[i].red,
        bgra_bytes(pixels)[4 * i + 3] == pixels[i].alpha,
    decreases pixels.len(),
{
    four_bytes_for_each_pixel(pixels);
    four_bytes_for_each_pixel(pixels.drop_last());
    if i < pixels.len() - 1 {
        bytes_tell_each_pixel(pixels.drop_last(), i);
    }
}

/// A place is in the rectangle with the given middle, both counted in halves of
/// pixels, and the given sides.
pub open spec fn is_in_rectangle(
    x: int,
    y: int,
    middle_x: int,
    middle_y: int,
    width: int,
    height: int,
) -> bool {
    -width < 2 * x + 1 - middle_x < width && -height < 2 * y + 1 - middle_y < height
}

/// The tray icon is a board of 24 by 26 pixels in its middle, with a tab of 14 by 6
/// pixels on its upper edge and a cross of two bars of 14 by 4 and 4 by 12 pixels;
/// each lies on what comes before it, and the rest is transparent.
pub proof fn tray_icon_is_a_board_with_a_cross(x: int, y: int)
    requires
        0 <= x < 32,
        0 <= y < 32,
    ensures
        ({
            let at = 4 * (y * 32 + x);
            let bytes = rgba_bytes(tray_pixels()).subrange(at, at + 4);
            let board = is_in_rectangle(x, y, 32, 32, 24, 26);
            let tab = is_in_rectangle(x, y, 32, 8, 14, 6);
            let cross = is_in_rectangle(x, y, 32, 30, 14, 4) || is_in_rectangle(
                x,
                y,
                30,
                30,
                4,
                12,
            );
            &&& rgba_bytes(tray_pixels()).len() == 4 * 32 * 32
            &&& cross ==> bytes == seq![255u8, 255u8, 255u8, 255u8]
            &&& tab && !cross ==> bytes == seq![43u8, 119u8, 230u8, 255u8]
            &&& board && !tab && !cross ==> bytes == seq![31u8, 99u8, 201u8, 255u8]
            &&& !board && !tab && !cross ==> bytes == seq![0u8, 0u8, 0u8, 0u8]
        }),
{
    let i = y * 32 + x;
    let at = 4 * i;
    let bytes = rgba_bytes(tray_pixels()).subrange(at, at + 4);
    bytes_tell_each_pixel(tray_pixels(), i);
    assert(i % 32 == x && i / 32 == y);
    assert(tray_pixels()[i] == tray_pixel(x, y));
    assert(bytes =~= tray_pixel(x, y).rgba());
}

/// The number of sixteen bits that stands at a place, its low byte first.
pub open spec fn read16(bytes: Seq<u8>, at: int) -> int {
    bytes[at] + 256 * bytes[at + 1]
}

/// The number of thirty-two bits that stands at a place, its low byte first.
pub open spec fn read32(bytes: Seq<u8>, at: int) -> int {
    read16(bytes, at) + 65_536 * read16(bytes, at + 2)
}

/// A number that is written is read back.
pub proof fn numbers_read_back(front: Seq<u8>, n: int, back: Seq<u8>)
    ensures
        0 <= n <= 0xffff ==> read16(front + le16(n) + back, front.len() as int) == n,
        0 <= n <= 0xffff_ffff ==> read32(front + le32(n) + back, front.len() as int) == n,
        le16(n).len() == 2,
        le32(n).len() == 4,
{
    let at = front.len() as int;
    if 0 <= n <= 0xffff_ffff {
        let s = front + le32(n) + back;
        assert(s[at] == le32(n)[0] && s[at + 1] == le32(n)[1]);
        assert(s[at + 2] == le32(n)[2] && s[at + 3] == le32(n)[3]);
        let a = n / 256;
        let b = a / 256;
        assert(n / 65536 == b);
        assert(n / 16777216 == b / 256);
    }
    if 0 <= n <= 0xffff {
        let s = front + le16(n) + back;
        assert(s[at] == le16(n)[0] && s[at + 1] == le16(n)[1]);
    }
}

/// The header of an image says that it is forty bytes long, how wide the image is
/// and how high with its mask, that there is one plane of thirty-two bits, and how
/// many bytes the pixels take; everything else in it is zero.
pub proof fn header_tells_the_size(size: int)
    requires
        0 <= size <= MAX_ICON_SIZE,
    ensures
        ({
            let header = image_header(size);
            &&& header.len() == 40
            &&& read32(header, 0) == 40
            &&& read32(header, 4) == size
            &&& read32(header, 8) == 2 * size
            &&& read16(header, 12) == 1
            &&& read16(header, 14) == 32
            &&& read32(header, 16) == 0
            &&& read32(header, 20) == 4 * (size * size)
            &&& forall|i: int| 24 <= i < 40 ==> #[trigger] header[i] == 0
        }),
{
    assert(0 <= size * size * 4 <= 0xffff_ffff && size * size * 4 == 4 * (size * size))
        by (nonlinear_arith)
        requires
            0 <= size <= 32_767,
    ;
    let header = image_header(size);
    let none = Seq::<u8>::empty();
    numbers_read_back(none, 40, none);
    numbers_read_back(none, size, none);
    numbers_read_back(none, size * 2, none);
    numbers_read_back(none, 1, none);
    numbers_read_back(none, 32, none);
    numbers_read_back(none, size * size * 4, none);
    assert(none + le32(40) + none =~= le32(40));
    assert(none + le32(size) + none =~= le32(size));
    assert(none + le32(size * 2) + none =~= le32(size * 2));
    assert(none + le16(1) + none =~= le16(1));
    assert(none + le16(32) + none =~= le16(32));
    assert(none + le32(size * size * 4) + none =~= le32(size * size * 4));
    assert(header.subrange(0, 4) =~= le32(40));
    assert(header.subrange(4, 8) =~= le32(size));
    assert(header.subrange(8, 12) =~= le32(size * 2));
    assert(header.subrange(12, 14) =~= le16(1));
    assert(header.subrange(14, 16) =~= le16(32));
    assert(header.subrange(20, 24) =~= le32(size * size * 4));
    lemma_read_within(header, 0, 4);
    lemma_read_within(header, 4, 8);
    lemma_read_within(header, 8, 12);
    lemma_read_within(header, 12, 14);
    lemma_read_within(header, 14, 16);
    lemma_read_within(header, 20, 24);
}

proof fn lemma_read_within(bytes: Seq<u8>, at: int, end: int)
    requires
        0 <= at,
        at + 2 <= end <= bytes.len(),
    ensures
        read16(bytes.subrange(at, end), 0) == read16(bytes, at),
        at + 4 <= end ==> read32(bytes.subrange(at, end), 0) == read32(bytes, at),
{
    let part = bytes.subrange(at, end);
    assert(part[0] == bytes[at] && part[1] == bytes[at + 1]);
    if at + 4 <= end {
        assert(part[2] == bytes[at + 2] && part[3] == bytes[at + 3]);
    }
}

proof fn lemma_rows_len(pixels: Seq<Pixel>, size: int, count: int)
    requires
        0 <= count <= size,
        pixels.len() == size * size,
    ensures
        rows_from_bottom(pixels, size, count).len() == 4 * (count * size),
    decreases count,
{
    if count > 0 {
        lemma_rows_len(pixels, size, count - 1);
        let row = row_from_bottom(pixels, size, count - 1);
        assert(0 <= (size - count) * size && (size - count + 1) * size <= size * size && (size
            - count + 1) * size == (size - count) * size + size && count * size == (count - 1)
            * size + size) by (nonlinear_arith)
            requires
                0 < count <= size,
        ;
        assert(row.len() == size);
        four_bytes_for_each_pixel(row);
    } else {
        assert(count * size == 0) by (nonlinear_arith)
            requires
                count == 0,
        ;
    }
}

/// Of the lowest rows, the one with the given number from the top is in its place.
proof fn lemma_row_in_place(pixels: Seq<Pixel>, size: int, count: int, x: int, y: int, c: int)
    requires
        0 < count <= size,
        pixels.len() == size * size,
        0 <= x < size,
        size - count <= y < size,
        0 <= c < 4,
    ensures
        ({
            let at = 4 * ((size - 1 - y) * size + x) + c;
            &&& 0 <= at < rows_from_bottom(pixels, size, count).len()
            &&& rows_from_bottom(pixels, size, count)[at] == pixels[y * size + x].bgra()[c]
        }),
    decreases count,
{
    let n = size - 1 - y;
    let before = rows_from_bottom(pixels, size, count - 1);
    let row = row_from_bottom(pixels, size, count - 1);
    lemma_rows_len(pixels, size, count);
    lemma_rows_len(pixels, size, count - 1);
    assert(0 <= (size - count) * size && (size - count + 1) * size <= size * size && (size - count
        + 1) * size == (size - count) * size + size) by (nonlinear_arith)
        requires
            0 < count <= size,
    ;
    assert(row.len() == size);
    if n == count - 1 {
        bytes_tell_each_pixel(row, x);
        assert(y == size - count);
        assert(row[x] == pixels[y * size + x]);
        let whole = rows_from_bottom(pixels, size, count);
        assert(whole == before + bgra_bytes(row));
        assert(4 * (n * size + x) + c == before.len() + 4 * x + c);
        assert(whole[4 * (n * size + x) + c] == bgra_bytes(row)[4 * x + c]);
        assert(pixels[y * size + x].bgra()[c] == bgra_bytes(row)[4 * x + c]);
    } else {
        lemma_row_in_place(pixels, size, count - 1, x, y, c);
    }
}

/// An image of an icon file holds each pixel of the image, the lowest row first and
/// the blue byte before the green and the red one, behind its header and before a
/// mask of zeros.
pub proof fn image_holds_each_pixel(size: int, pixels: Seq<Pixel>, x: int, y: int)
    requires
        0 <= x < size <= MAX_ICON_SIZE,
        0 <= y < size,
        pixels.len() == size * size,
    ensures
        ({
            let image = icon_image(size, pixels);
            let at = 40 + 4 * ((size - 1 - y) * size + x);
            let end = 40 + 4 * (size * size);
            &&& image.take(40) == image_header(size)
            &&& image[at] == pixels[y * size + x].blue
            &&& image[at + 1] == pixels[y * size + x].green
            &&& image[at + 2] == pixels[y * size + x].red
            &&& image[at + 3] == pixels[y * size + x].alpha
            &&& forall|i: int| end <= i < image.len() ==> #[trigger] image[i] == 0
            &&& image.len() == end + 4 * ((size + 31) / 32) * size
        }),
{
    header_tells_the_size(size);
    lemma_rows_len(pixels, size, size);
    lemma_row_in_place(pixels, size, size, x, y, 0);
    lemma_row_in_place(pixels, size, size, x, y, 1);
    lemma_row_in_place(pixels, size, size, x, y, 2);
    lemma_row_in_place(pixels, size, size, x, y, 3);
    let image = icon_image(size, pixels);
    let rows = rows_from_bottom(pixels, size, size);
    assert(mask_len(size) >= 0 && mask_len(size) == 4 * ((size + 31) / 32) * size)
        by (nonlinear_arith)
        requires
            size >= 0,
            mask_len(size) == (size + 31) / 32 * 4 * size,
    ;
    assert(image.take(40) =~= image_header(size));
    let at = 4 * ((size - 1 - y) * size + x);
    assert forall|c: int| 0 <= c < 4 implies #[trigger] image[40 + at + c] == rows[at + c] by {}
    let pixel = pixels[y * size + x];
    assert(image[40 + at + 0] == pixel.bgra()[0]);
    assert(image[40 + at + 1] == pixel.bgra()[1]);
    assert(image[40 + at + 2] == pixel.bgra()[2]);
    assert(image[40 + at + 3] == pixel.bgra()[3]);
}

proof fn lemma_entry_in_place(images: Seq<(u8, Seq<u8>)>, start: int, i: int)
    requires
        0 <= i < images.len(),
    ensures
        directory(images, start).len() == 16 * images.len(),
        directory(images, start).subrange(16 * i, 16 * i + 16) == directory_entry(
            images[i].0,
            images[i].1.len() as int,
            start + image_data(images.take(i)).len(),
        ),
    decreases images.len(),
{
    let before = images.drop_last();
    let entry = directory_entry(
        images.last().0,
        images.last().1.len() as int,
        start + image_data(before).len(),
    );
    assert(entry.len() == 16);
    if before.len() > 0 {
        lemma_entry_in_place(before, start, 0);
    }
    assert(directory(before, start).len() == 16 * before.len());
    if i < before.len() {
        lemma_entry_in_place(before, start, i);
        assert(before.take(i) =~= images.take(i));
        assert(directory(images, start).subrange(16 * i, 16 * i + 16) =~= directory(
            before,
            start,
        ).subrange(16 * i, 16 * i + 16));
    } else {
        assert(images.take(i) =~= before);
        assert(directory(images, start).subrange(16 * i, 16 * i + 16) =~= entry);
    }
}

proof fn lemma_data_in_place(images: Seq<(u8, Seq<u8>)>, i: int)
    requires
        0 <= i < images.len(),
    ensures
        ({
            let at = image_data(images.take(i)).len() as int;
            &&& at + images[i].1.len() <= image_data(images).len()
            &&& image_data(images).subrange(at, at + images[i].1.len()) == images[i].1
        }),
    decreases images.len(),
{
    let before = images.drop_last();
    let at = image_data(images.take(i)).len() as int;
    let end = at + images[i].1.len();
    if i < before.len() {
        lemma_data_in_place(before, i);
        assert(before.take(i) =~= images.take(i));
        assert(image_data(images).subrange(at, end) =~= image_data(before).subrange(at, end));
    } else {
        assert(images.take(i) =~= before);
        assert(image_data(images).subrange(at, end) =~= images[i].1);
    }
}

/// What is read of an entry of the directory.
proof fn lemma_entry_reads(side: u8, len: int, offset: int)
    requires
        0 <= len <= 0xffff_ffff,
        0 <= offset <= 0xffff_ffff,
    ensures
        ({
            let entry = directory_entry(side, len, offset);
            &&& entry.len() == 16
            &&& entry[0] == side && entry[1] == side && entry[2] == 0 && entry[3] == 0
            &&& read16(entry, 4) == 1
            &&& read16(entry, 6) == 32
            &&& read32(entry, 8) == len
            &&& read32(entry, 12) == offset
        }),
{
    let entry = directory_entry(side, len, offset);
    let none = Seq::<u8>::empty();
    let first = seq![side, side, 0u8, 0u8];
    let second = first + le16(1);
    let third = second + le16(32);
    let fourth = third + le32(len);
    numbers_read_back(first, 1, le16(32) + le32(len) + le32(offset));
    numbers_read_back(second, 32, le32(len) + le32(offset));
    numbers_read_back(third, len, le32(offset));
    numbers_read_back(fourth, offset, none);
    assert(entry =~= first + le16(1) + (le16(32) + le32(len) + le32(offset)));
    assert(entry =~= second + le16(32) + (le32(len) + le32(offset)));
    assert(entry =~= third + le32(len) + le32(offset));
    assert(entry =~= fourth + le32(offset) + none);
}

/// What is read of a part is read of the whole.
proof fn lemma_entry_read_in_file(file: Seq<u8>, at: int, entry: Seq<u8>)
    requires
        0 <= at,
        at + 16 <= file.len(),
        file.subrange(at, at + 16) == entry,
    ensures
        forall|k: int| 0 <= k < 16 ==> file[at + k] == #[trigger] entry[k],
        read16(file, at + 4) == read16(entry, 4),
        read16(file, at + 6) == read16(entry, 6),
        read32(file, at + 8) == read32(entry, 8),
        read32(file, at + 12) == read32(entry, 12),
{
    assert forall|k: int| 0 <= k < 16 implies file[at + k] == #[trigger] entry[k] by {
        assert(file.subrange(at, at + 16)[k] == file[at + k]);
    }
    assert(file[at + 4] == entry[4] && file[at + 4 + 1] == entry[5]);
    assert(file[at + 6] == entry[6] && file[at + 6 + 1] == entry[7]);
    assert(file[at + 8] == entry[8] && file[at + 8 + 1] == entry[9]);
    assert(file[at + 8 + 2] == entry[10] && file[at + 8 + 2 + 1] == entry[11]);
    assert(file[at + 12] == entry[12] && file[at + 12 + 1] == entry[13]);
    assert(file[at + 12 + 2] == entry[14] && file[at + 12 + 2 + 1] == entry[15]);
}

/// What is read at the start of an icon file.
proof fn lemma_start_reads(count: int, rest: Seq<u8>)
    requires
        0 <= count <= 0xffff,
    ensures
        ({
            let file = le16(0) + le16(1) + le16(count) + rest;
            &&& read16(file, 0) == 0
            &&& read16(file, 2) == 1
            &&& read16(file, 4) == count
        }),
{
    let file = le16(0) + le16(1) + le16(count) + rest;
    let none = Seq::<u8>::empty();
    numbers_read_back(none, 0, le16(1) + le16(count) + rest);
    numbers_read_back(le16(0), 1, le16(count) + rest);
    numbers_read_back(le16(0) + le16(1), count, rest);
    assert(file =~= none + le16(0) + (le16(1) + le16(count) + rest));
    assert(file =~= le16(0) + le16(1) + (le16(count) + rest));
}

/// An icon file says how many images it has, and of each of them which side it has,
/// in how many colors and bits it is told, how many bytes it takes and where they
/// are; and there they are.
pub proof fn file_tells_where_each_image_is(images: Seq<(u8, Seq<u8>)>, i: int)
    requires
        images.len() <= u16::MAX,
        6 + images.len() * 16 + image_data(images).len() <= u32::MAX,
        0 <= i < images.len(),
    ensures
        ({
            let file = icon_file(images);
            let entry = 6 + 16 * i;
            let (side, image) = images[i];
            let offset = read32(file, entry + 12);
            &&& read16(file, 0) == 0
            &&& read16(file, 2) == 1
            &&& read16(file, 4) == images.len()
            &&& file[entry] == side && file[entry + 1] == side
            &&& file[entry + 2] == 0 && file[entry + 3] == 0
            &&& read16(file, entry + 4) == 1
            &&& read16(file, entry + 6) == 32
            &&& read32(file, entry + 8) == image.len()
            &&& 6 + 16 * images.len() <= offset
            &&& offset + image.len() <= file.len()
            &&& file.subrange(offset, offset + image.len()) == image
        }),
{
    let file = icon_file(images);
    let start = (6 + images.len() * 16) as int;
    let count = images.len() as int;
    let (side, image) = images[i];
    let at = image_data(images.take(i)).len() as int;
    let len = image.len() as int;
    let listed = directory(images, start);
    let data = image_data(images);
    lemma_entry_in_place(images, start, i);
    lemma_data_in_place(images, i);
    lemma_start_reads(count, listed + data);
    lemma_entry_reads(side, len, start + at);
    let head = le16(0) + le16(1) + le16(count);
    assert(head.len() == 6);
    assert(file =~= head + (listed + data));
    let entry = 6 + 16 * i;
    lemma_parts_in_place(head, listed, data, 16 * i, 16 * i + 16, at, at + len);
    lemma_entry_read_in_file(file, entry, directory_entry(side, len, start + at));
}

/// A part of one of three sequences stands in all of them together.
proof fn lemma_parts_in_place(
    head: Seq<u8>,
    listed: Seq<u8>,
    data: Seq<u8>,
    a: int,
    b: int,
    c: int,
    d: int,
)
    requires
        0 <= a <= b <= listed.len(),
        0 <= c <= d <= data.len(),
    ensures
        ({
            let all = head + (listed + data);
            let start = head.len() as int;
            let end = start + listed.len();
            &&& all.subrange(start + a, start + b) == listed.subrange(a, b)
            &&& all.subrange(end + c, end + d) == data.subrange(c, d)
        }),
{
    let all = head + (listed + data);
    let start = head.len() as int;
    let end = start + listed.len();
    assert(all.subrange(start + a, start + b) =~= listed.subrange(a, b));
    assert(all.subrange(end + c, end + d) =~= data.subrange(c, d));
}

} // verus!
