//! Images of the history: thumbnails, and the packing and unpacking of the
//! pixels.

use crate::clip::{Clip, ClipView};
use crate::text::same_text;
use vstd::prelude::*;

verus! {

/// An image in rows of pixels of four bytes: red, green, blue and alpha.
#[derive(Debug)]
pub struct ImageData {
    pub width: usize,
    pub height: usize,
    pub bytes: Vec<u8>,
}

// ---------------------------------------------------------------------------
// Thumbnails
// ---------------------------------------------------------------------------

/// The width and the height of a thumbnail.
pub const THUMBNAIL_SIZE: usize = 48;

/// A side of the picture within its thumbnail: at least one pixel, at most the
/// whole thumbnail.
pub open spec fn clamped_side(side: nat) -> nat {
    if side < 1 {
        1
    } else if side > THUMBNAIL_SIZE {
        THUMBNAIL_SIZE as nat
    } else {
        side
    }
}

/// The image has at least one pixel, and the bytes hold all its pixels.
pub open spec fn holds_pixels(width: nat, height: nat, bytes: Seq<u8>) -> bool {
    width > 0 && height > 0 && width * height * 4 <= bytes.len()
}

/// The index in the image of the first byte of the pixel that is drawn at
/// column `x` and row `y` of a picture of `w` by `h` pixels.
pub open spec fn source_index(width: nat, height: nat, w: nat, h: nat, x: nat, y: nat) -> int {
    ((y * height / h) * width + x * width / w) as int * 4
}

/// One byte of a thumbnail: the picture of `w` by `h` pixels stands in the
/// middle, and what is around it is transparent.
pub open spec fn thumbnail_byte(
    width: nat,
    height: nat,
    bytes: Seq<u8>,
    w: nat,
    h: nat,
    column: int,
    row: int,
    channel: int,
) -> u8 {
    let left = (THUMBNAIL_SIZE - w) / 2;
    let top = (THUMBNAIL_SIZE - h) / 2;
    if left <= column < left + w && top <= row < top + h {
        bytes[source_index(width, height, w, h, (column - left) as nat, (row - top) as nat)
            + channel]
    } else {
        0
    }
}

/// The bytes of a thumbnail.
pub open spec fn thumbnail_bytes(
    width: nat,
    height: nat,
    bytes: Seq<u8>,
    w: nat,
    h: nat,
) -> Seq<u8> {
    Seq::new(
        (THUMBNAIL_SIZE * THUMBNAIL_SIZE * 4) as nat,
        |i: int|
            thumbnail_byte(
                width,
                height,
                bytes,
                w,
                h,
                (i / 4) % (THUMBNAIL_SIZE as int),
                (i / 4) / (THUMBNAIL_SIZE as int),
                i % 4,
            ),
    )
}

/// The thumbnail of an image, of which the picture takes the given scaled
/// sides.
pub open spec fn thumbnail_of(
    width: nat,
    height: nat,
    bytes: Seq<u8>,
    scaled_width: nat,
    scaled_height: nat,
) -> Option<(Seq<u8>, i64, i64)> {
    if holds_pixels(width, height, bytes) {
        Some(
            (
                thumbnail_bytes(
                    width,
                    height,
                    bytes,
                    clamped_side(scaled_width),
                    clamped_side(scaled_height),
                ),
                THUMBNAIL_SIZE as i64,
                THUMBNAIL_SIZE as i64,
            ),
        )
    } else {
        None
    }
}

/// A thumbnail, its bytes as a sequence.
pub open spec fn thumbnail_view(thumbnail: Option<(Vec<u8>, i64, i64)>) -> Option<
    (Seq<u8>, i64, i64),
> {
    match thumbnail {
        Some((bytes, width, height)) => Some((bytes@, width, height)),
        None => None,
    }
}

fn clamp_side(side: usize) -> (r: usize)
    ensures
        r == clamped_side(side as nat),
        1 <= r <= THUMBNAIL_SIZE,
{
    if side < 1 {
        1
    } else if side > THUMBNAIL_SIZE {
        THUMBNAIL_SIZE
    } else {
        side
    }
}

proof fn lemma_scaled_position(x: nat, w: nat, width: nat)
    requires
        x < w,
        width > 0,
    ensures
        x * width / w < width,
{
    assert(x * width / w < width) by (nonlinear_arith)
        requires
            x < w,
            width > 0,
    ;
}

proof fn lemma_source_in_bounds(width: nat, height: nat, w: nat, h: nat, x: nat, y: nat, len: nat)
    requires
        x < w,
        y < h,
        width > 0,
        height > 0,
        width * height * 4 <= len,
    ensures
        0 <= source_index(width, height, w, h, x, y),
        source_index(width, height, w, h, x, y) + 4 <= len,
        (y * height / h) * width + x * width / w < width * height,
{
    lemma_scaled_position(x, w, width);
    lemma_scaled_position(y, h, height);
    let column = x * width / w;
    let row = y * height / h;
    assert(row * width + column < width * height) by (nonlinear_arith)
        requires
            row < height,
            column < width,
    ;
}

/// Where in a side of `side` pixels the step `x` of `w` steps falls.
fn scaled_position(x: usize, w: usize, side: usize) -> (r: usize)
    requires
        x < w,
        side > 0,
    ensures
        r == x as nat * side as nat / w as nat,
        r < side,
{
    proof {
        lemma_scaled_position(x as nat, w as nat, side as nat);
        assert(x as nat * side as nat <= 0xffff_ffff_ffff_ffff * 0xffff_ffff_ffff_ffff)
            by (nonlinear_arith)
            requires
                x <= 0xffff_ffff_ffff_ffff,
                side <= 0xffff_ffff_ffff_ffff,
        ;
    }
    let product: u128 = (x as u128) * (side as u128);
    (product / (w as u128)) as usize
}

/// The index of the first byte of the pixel that is drawn at column `x` and row
/// `y` of a picture of `w` by `h` pixels.
fn pixel_index(
    bytes: &Vec<u8>,
    width: usize,
    height: usize,
    w: usize,
    h: usize,
    x: usize,
    y: usize,
) -> (r: usize)
    requires
        x < w,
        y < h,
        holds_pixels(width as nat, height as nat, bytes@),
    ensures
        r == source_index(width as nat, height as nat, w as nat, h as nat, x as nat, y as nat),
        r + 4 <= bytes@.len(),
{
    let available: usize = bytes.len();
    let source_x = scaled_position(x, w, width);
    let source_y = scaled_position(y, h, height);
    proof {
        lemma_source_in_bounds(
            width as nat,
            height as nat,
            w as nat,
            h as nat,
            x as nat,
            y as nat,
            bytes@.len(),
        );
        assert(0 <= source_y * width) by (nonlinear_arith)
            requires
                0 <= source_y,
                0 <= width,
        ;
    }
    (source_y * width + source_x) * 4
}

/// The four bytes of a pixel of a thumbnail stand side by side.
proof fn lemma_thumbnail_pixel(
    width: nat,
    height: nat,
    bytes: Seq<u8>,
    w: nat,
    h: nat,
    column: int,
    row: int,
)
    requires
        0 <= column < THUMBNAIL_SIZE,
        0 <= row < THUMBNAIL_SIZE,
    ensures
        ({
            let at = (row * THUMBNAIL_SIZE + column) * 4;
            thumbnail_bytes(width, height, bytes, w, h).subrange(at, at + 4) == Seq::new(
                4,
                |c: int| thumbnail_byte(width, height, bytes, w, h, column, row, c),
            )
        }),
{
    let at = (row * THUMBNAIL_SIZE + column) * 4;
    let whole = thumbnail_bytes(width, height, bytes, w, h);
    let pixel = Seq::new(4, |c: int| thumbnail_byte(width, height, bytes, w, h, column, row, c));
    assert forall|c: int| 0 <= c < 4 implies whole.subrange(at, at + 4)[c] == pixel[c] by {
        assert((at + c) / 4 == row * THUMBNAIL_SIZE + column);
        assert((at + c) % 4 == c);
    }
    assert(whole.subrange(at, at + 4) =~= pixel);
}

/// The four bytes of a pixel of an image.
pub open spec fn pixel(bytes: Seq<u8>, width: int, column: int, row: int) -> Seq<u8> {
    bytes.subrange(4 * (row * width + column), 4 * (row * width + column) + 4)
}

/// A thumbnail is a square of forty-eight pixels with the picture in its middle:
/// the margins on two sides differ by one pixel at most. A pixel of the picture is
/// the one of the image that stands as far into it, and a margin is transparent.
pub proof fn thumbnail_shows_the_image(
    width: nat,
    height: nat,
    bytes: Seq<u8>,
    w: nat,
    h: nat,
    left: int,
    top: int,
    column: int,
    row: int,
    x: int,
    y: int,
)
    requires
        width > 0,
        height > 0,
        4 * (width * height) <= bytes.len(),
        1 <= w <= 48,
        1 <= h <= 48,
        2 * left <= 48 - w < 2 * left + 2,
        2 * top <= 48 - h < 2 * top + 2,
        0 <= column < 48,
        0 <= row < 48,
    ensures
        match thumbnail_of(width, height, bytes, w, h) {
            Some((drawn, drawn_width, drawn_height)) => {
                &&& drawn_width == 48
                &&& drawn_height == 48
                &&& drawn.len() == 4 * 48 * 48
                &&& left <= column < left + w && top <= row < top + h && x * w <= (column - left)
                    * width < x * w + w && y * h <= (row - top) * height < y * h + h ==> pixel(
                    drawn,
                    48,
                    column,
                    row,
                ) == pixel(bytes, width as int, x, y)
                &&& !(left <= column < left + w && top <= row < top + h) ==> pixel(
                    drawn,
                    48,
                    column,
                    row,
                ) == seq![0u8, 0u8, 0u8, 0u8]
            },
            None => false,
        },
{
    lemma_thumbnail_pixel(width, height, bytes, w, h, column, row);
    assert(width * height * 4 <= bytes.len()) by (nonlinear_arith)
        requires
            4 * (width * height) <= bytes.len(),
    ;
    let drawn = thumbnail_bytes(width, height, bytes, w, h);
    assert(thumbnail_of(width, height, bytes, w, h) == Some((drawn, 48i64, 48i64)));
    assert(left == (48 - w) / 2);
    assert(top == (48 - h) / 2);
    let at = 4 * (row * 48 + column);
    if left <= column < left + w && top <= row < top + h {
        let across = (column - left) as nat;
        let down = (row - top) as nat;
        if x * w <= across * width < x * w + w && y * h <= down * height < y * h + h {
            vstd::arithmetic::div_mod::lemma_fundamental_div_mod_converse(
                (across * width) as int,
                w as int,
                x,
                across * width - x * w,
            );
            vstd::arithmetic::div_mod::lemma_fundamental_div_mod_converse(
                (down * height) as int,
                h as int,
                y,
                down * height - y * h,
            );
            lemma_source_in_bounds(width, height, w, h, across, down, bytes.len());
            assert(source_index(width, height, w, h, across, down) == 4 * (y * width + x));
            assert(pixel(drawn, 48, column, row) =~= pixel(bytes, width as int, x, y));
        }
    } else {
        assert(pixel(drawn, 48, column, row) =~= seq![0u8, 0u8, 0u8, 0u8]);
    }
}

/// The sides of the picture are brought into the thumbnail, and those that fit
/// are taken as they are. There is a thumbnail just where the image has pixels and
/// all of them are there.
pub proof fn picture_fits_its_thumbnail(
    width: nat,
    height: nat,
    bytes: Seq<u8>,
    scaled_width: nat,
    scaled_height: nat,
    w: nat,
    h: nat,
)
    requires
        1 <= w <= 48,
        scaled_width < 1 ==> w == 1,
        scaled_width > 48 ==> w == 48,
        1 <= scaled_width <= 48 ==> w == scaled_width,
        1 <= h <= 48,
        scaled_height < 1 ==> h == 1,
        scaled_height > 48 ==> h == 48,
        1 <= scaled_height <= 48 ==> h == scaled_height,
    ensures
        thumbnail_of(width, height, bytes, scaled_width, scaled_height) == thumbnail_of(
            width,
            height,
            bytes,
            w,
            h,
        ),
        thumbnail_of(width, height, bytes, scaled_width, scaled_height) is Some <==> width > 0
            && height > 0 && 4 * (width * height) <= bytes.len(),
{
    assert(width * height * 4 == 4 * (width * height)) by (nonlinear_arith);
}

/// The product of the sides and the size of a pixel, if it fits.
fn pixel_bytes(width: usize, height: usize) -> (r: Option<usize>)
    ensures
        match r {
            Some(n) => n == width * height * 4,
            None => width * height * 4 > usize::MAX,
        },
{
    match width.checked_mul(height) {
        Some(area) => area.checked_mul(4),
        None => {
            proof {
                assert(width * height * 4 > usize::MAX) by (nonlinear_arith)
                    requires
                        width * height > usize::MAX,
                ;
            }
            None
        },
    }
}

/// Draws the thumbnail of an image. The picture takes the scaled sides, each
/// brought into the thumbnail, and stands in its middle; every pixel of it is
/// the nearest one of the image. There is no thumbnail of an image without
/// pixels, nor where bytes are missing.
pub fn build_thumbnail_rgba(
    width: usize,
    height: usize,
    bytes: &Vec<u8>,
    scaled_width: usize,
    scaled_height: usize,
) -> (r: Option<(Vec<u8>, i64, i64)>)
    ensures
        thumbnail_view(r) == thumbnail_of(
            width as nat,
            height as nat,
            bytes@,
            scaled_width as nat,
            scaled_height as nat,
        ),
{
    if width == 0 || height == 0 {
        return None;
    }
    let needed = match pixel_bytes(width, height) {
        Some(n) => n,
        None => {
            assert(bytes.len() <= usize::MAX);
            return None;
        },
    };
    if bytes.len() < needed {
        return None;
    }
    let w = clamp_side(scaled_width);
    let h = clamp_side(scaled_height);
    let left: usize = (THUMBNAIL_SIZE - w) / 2;
    let top: usize = (THUMBNAIL_SIZE - h) / 2;
    let ghost whole = thumbnail_bytes(width as nat, height as nat, bytes@, w as nat, h as nat);
    let mut output: Vec<u8> = Vec::new();
    let mut row: usize = 0;
    while row < THUMBNAIL_SIZE
        invariant
            row <= THUMBNAIL_SIZE,
            1 <= w <= THUMBNAIL_SIZE,
            1 <= h <= THUMBNAIL_SIZE,
            left == (THUMBNAIL_SIZE - w) / 2,
            top == (THUMBNAIL_SIZE - h) / 2,
            holds_pixels(width as nat, height as nat, bytes@),
            whole == thumbnail_bytes(width as nat, height as nat, bytes@, w as nat, h as nat),
            output@ == whole.take(row * THUMBNAIL_SIZE * 4),
        decreases THUMBNAIL_SIZE - row,
    {
        let mut column: usize = 0;
        while column < THUMBNAIL_SIZE
            invariant
                row < THUMBNAIL_SIZE,
                column <= THUMBNAIL_SIZE,
                1 <= w <= THUMBNAIL_SIZE,
                1 <= h <= THUMBNAIL_SIZE,
                left == (THUMBNAIL_SIZE - w) / 2,
                top == (THUMBNAIL_SIZE - h) / 2,
                holds_pixels(width as nat, height as nat, bytes@),
                whole == thumbnail_bytes(width as nat, height as nat, bytes@, w as nat, h as nat),
                output@ == whole.take((row * THUMBNAIL_SIZE + column) * 4),
            decreases THUMBNAIL_SIZE - column,
        {
            let ghost at = (row * THUMBNAIL_SIZE + column) * 4;
            let ghost before = output@;
            if left <= column && column < left + w && top <= row && row < top + h {
                let index = pixel_index(bytes, width, height, w, h, column - left, row - top);
                output.push(bytes[index]);
                output.push(bytes[index + 1]);
                output.push(bytes[index + 2]);
                output.push(bytes[index + 3]);
            } else {
                output.push(0);
                output.push(0);
                output.push(0);
                output.push(0);
            }
            proof {
                lemma_thumbnail_pixel(
                    width as nat,
                    height as nat,
                    bytes@,
                    w as nat,
                    h as nat,
                    column as int,
                    row as int,
                );
                assert(output@ =~= before + whole.subrange(at, at + 4));
                assert(whole.take(at + 4) =~= whole.take(at) + whole.subrange(at, at + 4));
            }
            column = column + 1;
        }
        row = row + 1;
    }
    assert(output@ =~= whole);
    Some((output, THUMBNAIL_SIZE as i64, THUMBNAIL_SIZE as i64))
}

// ---------------------------------------------------------------------------
// Packed pixels
// ---------------------------------------------------------------------------

/// What LZ4 unpacks of bytes with their size before them, or the message that
/// says why it cannot.
pub uninterp spec fn lz4_unpacked(packed: Seq<u8>) -> Result<Seq<u8>, Seq<char>>;

/// LZ4 unpacks the packed bytes into the others.
pub open spec fn unpacks_into(packed: Seq<u8>, bytes: Seq<u8>) -> bool {
    lz4_unpacked(packed) is Ok && lz4_unpacked(packed)->Ok_0 == bytes
}

/// The bytes are few enough for the room that packing them takes to be counted.
pub open spec fn is_packable(bytes: Seq<u8>) -> bool {
    bytes.len() * 110 <= usize::MAX
}

/// The index of the first byte at or behind `at` that is not 255.
pub open spec fn run_end(block: Seq<u8>, at: int) -> int
    decreases block.len() - at,
{
    if 0 <= at < block.len() && block[at] == 255 {
        run_end(block, at + 1)
    } else {
        at
    }
}

/// What a length takes in that goes on at `at`: the bytes 255 there, and the
/// byte behind them.
pub open spec fn long_length(block: Seq<u8>, at: int) -> int {
    let end = run_end(block, at);
    255 * (end - at) + (if end < block.len() {
        block[end] as int
    } else {
        0
    })
}

/// The index behind a length that goes on at `at`.
pub open spec fn behind_length(block: Seq<u8>, at: int) -> int {
    let end = run_end(block, at);
    if end < block.len() {
        end + 1
    } else {
        end
    }
}

/// How many literals a sequence that begins at `at` has.
pub open spec fn literal_count(block: Seq<u8>, at: int) -> int {
    block[at] as int / 16 + (if block[at] as int / 16 == 15 {
        long_length(block, at + 1)
    } else {
        0
    })
}

/// Where the literals of a sequence that begins at `at` begin.
pub open spec fn literal_start(block: Seq<u8>, at: int) -> int {
    if block[at] as int / 16 == 15 {
        behind_length(block, at + 1)
    } else {
        at + 1
    }
}

/// How long the match of a sequence is that begins at `at` and has its offset at
/// `offset`.
pub open spec fn match_count(block: Seq<u8>, at: int, offset: int) -> int {
    4 + block[at] as int % 16 + (if block[at] as int % 16 == 15 {
        long_length(block, offset + 2)
    } else {
        0
    })
}

/// Where the sequence ends that begins at `at` and has its offset at `offset`.
pub open spec fn sequence_end(block: Seq<u8>, at: int, offset: int) -> int {
    if block[at] as int % 16 == 15 {
        behind_length(block, offset + 2)
    } else {
        offset + 2
    }
}

/// What is added up for the literals of a sequence stays within its types.
pub open spec fn literals_add_up(block: Seq<u8>, at: int) -> bool {
    literal_count(block, at) - 15 <= u32::MAX && literal_count(block, at) <= usize::MAX
}

/// What is added up for the match of a sequence stays within its types, where
/// `out` bytes are unpacked.
pub open spec fn match_adds_up(block: Seq<u8>, at: int, offset: int, out: int) -> bool {
    match_count(block, at, offset) - 19 <= u32::MAX && out + match_count(block, at, offset)
        <= usize::MAX
}

/// From a sequence that begins at `at` on, every length adds up that an
/// unpacking reads, with `out` bytes unpacked and room for `room`. A sequence is
/// a byte with half of it for the literals and half for the match, the rest of
/// the literals' length where its half is full, the literals, two bytes that say
/// how far back the match lies, and the rest of the match's length where its half
/// is full. The unpacking ends where the block ends, and where it finds an error:
/// no room, or a match that lies nowhere.
pub open spec fn lengths_add_up(block: Seq<u8>, at: int, out: int, room: int) -> bool
    decreases block.len() - at,
{
    if at < 0 || at >= block.len() {
        true
    } else if !literals_add_up(block, at) {
        false
    } else {
        let offset = literal_start(block, at) + literal_count(block, at);
        let filled = out + literal_count(block, at);
        if offset + 2 > block.len() || filled > room {
            true
        } else {
            let distance = block[offset] + block[offset + 1] * 256;
            let next = sequence_end(block, at, offset);
            if distance == 0 {
                true
            } else if !match_adds_up(block, at, offset, filled) {
                false
            } else if filled + match_count(block, at, offset) > room || distance > filled {
                true
            } else {
                at < next < block.len() ==> lengths_add_up(
                    block,
                    next,
                    filled + match_count(block, at, offset),
                    room,
                )
            }
        }
    }
}

/// The size that stands before packed bytes.
pub open spec fn stated_size(packed: Seq<u8>) -> int {
    packed[0] + packed[1] * 256 + packed[2] * 65_536 + packed[3] * 16_777_216
}

/// Every length adds up that an unpacking of the packed bytes reads, and there
/// can be room for the size before them.
pub open spec fn is_unpackable(packed: Seq<u8>) -> bool {
    packed.len() >= 4 ==> stated_size(packed) <= isize::MAX && lengths_add_up(
        packed,
        4,
        0,
        stated_size(packed),
    )
}

/// The packed bytes are a packing of the others: it can be unpacked, and that
/// gives them back. Bytes whose number does not fit into the four bytes for the
/// size have no such packing.
pub open spec fn is_packing(packed: Seq<u8>, bytes: Seq<u8>) -> bool {
    bytes.len() <= u32::MAX ==> is_unpackable(packed) && unpacks_into(packed, bytes)
}

/// `lz4_flex::compress_prepend_size`: what it gives is unpacked by
/// `lz4_flex::decompress_size_prepended` into the bytes again, as long as their
/// number fits into the four bytes for the size; the lengths that it writes are
/// those of parts of the bytes. Which packing it gives differs between machines.
/// The room for it is counted as a hundred and ten hundredths of the bytes, so
/// that number must fit.
#[verifier::external_body]
fn lz4_pack(bytes: &Vec<u8>) -> (r: Vec<u8>)
    requires
        is_packable(bytes@),
    ensures
        is_packing(r@, bytes@),
{
    lz4_flex::compress_prepend_size(bytes)
}

/// `lz4_flex::decompress_size_prepended`: whether the bytes can be unpacked,
/// into what, and the message of the error where they cannot, depend on the
/// bytes alone, as long as no length that it reads in them is greater than the
/// types that it adds up lengths in can hold. Room for the size that stands
/// before them is taken at once.
#[verifier::external_body]
fn lz4_unpack(bytes: &Vec<u8>) -> (r: Result<Vec<u8>, String>)
    requires
        is_unpackable(bytes@),
    ensures
        match r {
            Ok(unpacked) => unpacks_into(bytes@, unpacked@),
            Err(cause) => lz4_unpacked(bytes@) is Err && lz4_unpacked(bytes@)->Err_0 == cause@,
        },
{
    lz4_flex::decompress_size_prepended(bytes).map_err(|error| error.to_string())
}

proof fn lemma_run_end(block: Seq<u8>, at: int)
    ensures
        at <= run_end(block, at),
        0 <= at <= block.len() ==> run_end(block, at) <= block.len(),
    decreases block.len() - at,
{
    if 0 <= at < block.len() && block[at] == 255 {
        lemma_run_end(block, at + 1);
    }
}

/// Reads a length that goes on at `at`: the length, and the index behind it.
fn read_length(block: &Vec<u8>, at: usize) -> (r: (u128, usize))
    requires
        at <= block@.len(),
    ensures
        r.0 == long_length(block@, at as int),
        r.0 <= 255 * usize::MAX + 255,
        r.1 == behind_length(block@, at as int),
        at <= r.1 <= block@.len(),
{
    let mut end: usize = at;
    while end < block.len() && block[end] == 255
        invariant
            at <= end <= block@.len(),
            run_end(block@, at as int) == run_end(block@, end as int),
        decreases block@.len() - end,
    {
        end = end + 1;
    }
    let length: u128 = ((end - at) as u128) * 255;
    if end < block.len() {
        (length + block[end] as u128, end + 1)
    } else {
        (length, end)
    }
}

/// Whether every length adds up that an unpacking of the packed bytes reads, and
/// there can be room for the size before them.
pub fn can_unpack(packed: &Vec<u8>) -> (r: bool)
    ensures
        r == is_unpackable(packed@),
{
    let len: usize = packed.len();
    if len < 4 {
        return true;
    }
    let room: u64 = packed[0] as u64 + packed[1] as u64 * 256 + packed[2] as u64 * 65_536
        + packed[3] as u64 * 16_777_216;
    if room > isize::MAX as u64 {
        return false;
    }
    let mut at: usize = 4;
    let mut out: u64 = 0;
    while at < len
        invariant
            len == packed@.len(),
            room == stated_size(packed@),
            out <= room <= u32::MAX,
            4 <= at <= len,
            is_unpackable(packed@) == lengths_add_up(packed@, at as int, out as int, room as int),
        decreases len - at,
    {
        let token: u8 = packed[at];
        proof {
            lemma_run_end(packed@, at + 1);
        }
        let mut literals: u128 = (token / 16) as u128;
        let mut start: usize = at + 1;
        if token / 16 == 15 {
            let (rest, behind) = read_length(packed, start);
            literals = literals + rest;
            start = behind;
        }
        if literals > u32::MAX as u128 + 15 || literals > usize::MAX as u128 {
            return false;
        }
        let left: usize = len - start;
        if literals + 2 > left as u128 || out as u128 + literals > room as u128 {
            return true;
        }
        let offset: usize = start + literals as usize;
        out = out + literals as u64;
        let distance: u64 = packed[offset] as u64 + packed[offset + 1] as u64 * 256;
        if distance == 0 {
            return true;
        }
        let mut count: u128 = 4 + (token % 16) as u128;
        let mut next: usize = offset + 2;
        if token % 16 == 15 {
            let (rest, behind) = read_length(packed, next);
            count = count + rest;
            next = behind;
        }
        if count > u32::MAX as u128 + 19 || out as u128 + count > usize::MAX as u128 {
            return false;
        }
        if out as u128 + count > room as u128 || distance > out {
            return true;
        }
        out = out + count as u64;
        at = next;
    }
    true
}

/// What packed bytes unpack into, or why they do not.
pub open spec fn unpacked(packed: Seq<u8>) -> Result<Seq<u8>, Seq<char>> {
    if is_unpackable(packed) {
        lz4_unpacked(packed)
    } else {
        Err("a length is out of range"@)
    }
}

/// Unpacks packed bytes.
pub fn unpack_pixels(packed: &Vec<u8>) -> (r: Result<Vec<u8>, String>)
    ensures
        unpacked_view(r) == unpacked(packed@),
{
    if can_unpack(packed) {
        lz4_unpack(packed)
    } else {
        Err("a length is out of range".to_owned())
    }
}

/// Packs the pixels of an image for the history.
pub fn pack_pixels(bytes: &Vec<u8>) -> (r: Vec<u8>)
    requires
        is_packable(bytes@),
    ensures
        is_packing(r@, bytes@),
{
    lz4_pack(bytes)
}

/// Why the pixels of a clip cannot be had.
#[derive(Debug)]
pub enum ImageError {
    /// The clip holds no image.
    MissingData,
    /// The packed pixels are damaged, and how.
    Damaged(String),
    /// The pixels are kept in a form that is not known.
    UnknownEncoding(String),
}

/// Why the pixels of a clip cannot be had, the encoding as characters.
pub enum ImageFault {
    MissingData,
    Damaged(Seq<char>),
    UnknownEncoding(Seq<char>),
}

impl View for ImageError {
    type V = ImageFault;

    open spec fn view(&self) -> ImageFault {
        match self {
            ImageError::MissingData => ImageFault::MissingData,
            ImageError::Damaged(cause) => ImageFault::Damaged(cause@),
            ImageError::UnknownEncoding(encoding) => ImageFault::UnknownEncoding(encoding@),
        }
    }
}

impl ImageFault {
    /// The message that is shown for the fault.
    pub open spec fn text(self) -> Seq<char> {
        match self {
            ImageFault::MissingData => "image clip is missing image data"@,
            ImageFault::Damaged(cause) => "failed to decompress image clipboard data: "@
                + cause,
            ImageFault::UnknownEncoding(encoding) => "unsupported image encoding: "@ + encoding,
        }
    }
}

impl ImageError {
    /// The message that is shown for the error.
    pub fn message(&self) -> (r: String)
        ensures
            r@ == self@.text(),
    {
        match self {
            ImageError::MissingData => "image clip is missing image data".to_owned(),
            ImageError::Damaged(cause) => {
                let mut out = "failed to decompress image clipboard data: ".to_owned();
                out.append(cause.as_str());
                out
            },
            ImageError::UnknownEncoding(encoding) => {
                let mut out = "unsupported image encoding: ".to_owned();
                out.append(encoding.as_str());
                out
            },
        }
    }
}

/// The pixels that a clip keeps, given what its bytes unpack into or why they do
/// not.
pub open spec fn pixels_of(clip: ClipView, unpacked: Result<Seq<u8>, Seq<char>>) -> Result<
    Seq<u8>,
    ImageFault,
> {
    match clip.image_bytes {
        None => Err(ImageFault::MissingData),
        Some(bytes) => if clip.image_encoding == "rgba"@ {
            Ok(bytes)
        } else if clip.image_encoding == "lz4-rgba"@ {
            match unpacked {
                Ok(pixels) => Ok(pixels),
                Err(cause) => Err(ImageFault::Damaged(cause)),
            }
        } else {
            Err(ImageFault::UnknownEncoding(clip.image_encoding))
        },
    }
}

/// What an unpacking returned, its bytes and texts as sequences.
pub open spec fn unpacked_view(unpacked: Result<Vec<u8>, String>) -> Result<Seq<u8>, Seq<char>> {
    match unpacked {
        Ok(pixels) => Ok(pixels@),
        Err(cause) => Err(cause@),
    }
}

/// The pixels that a clip keeps.
pub open spec fn decoded(clip: ClipView) -> Result<Seq<u8>, ImageFault> {
    match clip.image_bytes {
        Some(bytes) => pixels_of(clip, unpacked(bytes)),
        None => Err(ImageFault::MissingData),
    }
}

/// What a decoding returned, its pixels and texts as sequences.
pub open spec fn pixels_result(r: Result<Vec<u8>, ImageError>) -> Result<Seq<u8>, ImageFault> {
    match r {
        Ok(pixels) => Ok(pixels@),
        Err(error) => Err(error@),
    }
}

/// What the bytes of a clip are and how they are read.
pub enum PixelForm {
    /// The bytes are the pixels.
    Plain,
    /// The pixels are packed.
    Packed,
}

/// How the bytes of a clip are to be read.
pub fn pixel_form(clip: &Clip) -> (r: Result<PixelForm, ImageError>)
    ensures
        match r {
            Ok(PixelForm::Plain) => clip@.image_bytes is Some && clip@.image_encoding == "rgba"@,
            Ok(PixelForm::Packed) => clip@.image_bytes is Some && clip@.image_encoding != "rgba"@
                && clip@.image_encoding == "lz4-rgba"@,
            Err(error) => forall|unpacked: Result<Seq<u8>, Seq<char>>|
                #[trigger] pixels_of(clip@, unpacked) == Err::<Seq<u8>, ImageFault>(error@),
        },
{
    if clip.image_bytes.is_none() {
        return Err(ImageError::MissingData);
    }
    let encoding = clip.image_encoding.as_str();
    if same_text(encoding, "rgba") {
        Ok(PixelForm::Plain)
    } else if same_text(encoding, "lz4-rgba") {
        Ok(PixelForm::Packed)
    } else {
        Err(ImageError::UnknownEncoding(clip.image_encoding.clone()))
    }
}

/// The pixels of an image clip, given what its bytes unpack into or why they do
/// not.
pub fn decoded_pixels(clip: &Clip, unpacked: Result<Vec<u8>, String>) -> (r: Result<
    Vec<u8>,
    ImageError,
>)
    ensures
        pixels_result(r) == pixels_of(clip@, unpacked_view(unpacked)),
{
    let form = match pixel_form(clip) {
        Ok(form) => form,
        Err(error) => return Err(error),
    };
    match (&clip.image_bytes, form) {
        (None, _) => Err(ImageError::MissingData),
        (Some(bytes), PixelForm::Plain) => {
            let copy = bytes.clone();
            assert(copy@ =~= bytes@);
            Ok(copy)
        },
        (Some(_), PixelForm::Packed) => match unpacked {
            Ok(pixels) => Ok(pixels),
            Err(cause) => Err(ImageError::Damaged(cause)),
        },
    }
}

/// The pixels of an image clip.
pub fn decode_image_bytes(clip: &Clip) -> (r: Result<Vec<u8>, ImageError>)
    ensures
        pixels_result(r) == decoded(clip@),
{
    match pixel_form(clip) {
        Err(error) => Err(error),
        Ok(PixelForm::Plain) => decoded_pixels(clip, Ok(Vec::new())),
        Ok(PixelForm::Packed) => match &clip.image_bytes {
            Some(bytes) => decoded_pixels(clip, unpack_pixels(bytes)),
            None => Err(ImageError::MissingData),
        },
    }
}

} // verus!
