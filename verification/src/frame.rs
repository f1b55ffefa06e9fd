//! Turning a captured frame into a PNG preview.
use image::{DynamicImage, ImageError, ImageFormat, RgbaImage};
use std::io::Cursor;
use vstd::prelude::*;
use vstd::string::*;

verus! {

/// `image::ImageError`, carried through as an opaque error.
#[verifier::external_type_specification]
#[verifier::external_body]
pub struct ExImageError(ImageError);

/// The first `count` pixels of `row`, each turned from BGRA into RGBA.
pub open spec fn swapped_pixels(row: Seq<u8>, count: nat) -> Seq<u8>
    decreases count,
{
    if count == 0 {
        Seq::empty()
    } else {
        let b = 4 * (count - 1);
        swapped_pixels(row, (count - 1) as nat) + seq![row[b + 2], row[b + 1], row[b], row[b + 3]]
    }
}

/// The RGBA bytes of the first `height` rows of a BGRA frame: row `y`
/// starts at byte `y * stride` and holds `width` pixels.
pub open spec fn rgba_rows(raw: Seq<u8>, width: nat, height: nat, stride: nat) -> Seq<u8>
    decreases height,
{
    if height == 0 {
        Seq::empty()
    } else {
        let start = (height - 1) * stride;
        rgba_rows(raw, width, (height - 1) as nat, stride) + swapped_pixels(
            raw.subrange(start as int, start + 4 * width),
            width,
        )
    }
}

/// Every row of the frame lies inside the `len` bytes of the buffer.
pub open spec fn rows_fit(len: int, width: int, height: int, stride: int) -> bool {
    forall|y: int| 0 <= y < height ==> #[trigger] (y * stride) + 4 * width <= len
}

/// The error for a buffer that ends before the last row.
pub open spec fn truncated_frame_message() -> Seq<char> {
    "Frame buffer ended unexpectedly."@
}

/// Converts the rows of a BGRA frame into tightly packed RGBA bytes; fails
/// when a row runs past the end of `raw`.
pub fn bgra_to_rgba(raw: &[u8], width: u32, height: u32, stride: u32) -> (res: Result<Vec<u8>, String>)
    requires
        width * height * 4 <= u32::MAX,
        height > 0 ==> (height - 1) * stride <= u32::MAX,
    ensures
        match res {
            Ok(v) => rows_fit(raw@.len() as int, width as int, height as int, stride as int) && v@
                == rgba_rows(raw@, width as nat, height as nat, stride as nat),
            Err(e) => !rows_fit(raw@.len() as int, width as int, height as int, stride as int)
                && e@ == truncated_frame_message(),
        },
{
    let mut out: Vec<u8> = Vec::new();
    let mut y: u32 = 0;
    while y < height
        invariant
            y <= height,
            width * height * 4 <= u32::MAX,
            height > 0 ==> (height - 1) * stride <= u32::MAX,
            out@ == rgba_rows(raw@, width as nat, y as nat, stride as nat),
            forall|q: int| 0 <= q < y ==> #[trigger] (q * stride) + 4 * width <= raw@.len(),
        decreases height - y,
    {
        assert(y * stride <= (height - 1) * stride) by (nonlinear_arith)
            requires
                y < height,
        ;
        assert(width * 4 <= width * height * 4) by (nonlinear_arith)
            requires
                y < height,
        ;
        let row_start: u32 = y * stride;
        let row_len: u32 = width * 4;
        let start = row_start as usize;
        if row_len as usize > raw.len() || start > raw.len() - row_len as usize {
            assert(!rows_fit(raw@.len() as int, width as int, height as int, stride as int)) by {
                assert(!((y as int * stride) + 4 * width <= raw@.len()));
            }
            return Err(String::from_str("Frame buffer ended unexpectedly."));
        }
        assert(raw@.len() == raw.len());
        let ghost row = raw@.subrange(start as int, start + 4 * width);
        let ghost before = out@;
        let mut x: u32 = 0;
        while x < width
            invariant
                x <= width,
                start + 4 * width <= raw@.len(),
                raw@.len() == raw.len(),
                row == raw@.subrange(start as int, start + 4 * width),
                out@ == before + swapped_pixels(row, x as nat),
            decreases width - x,
        {
            assert(4 * (x as int) + 4 <= 4 * (width as int));
            let p = start + 4 * (x as usize);
            out.push(raw[p + 2]);
            out.push(raw[p + 1]);
            out.push(raw[p]);
            out.push(raw[p + 3]);
            assert(out@ =~= before + swapped_pixels(row, x as nat + 1));
            x = x + 1;
        }
        assert(out@ =~= rgba_rows(raw@, width as nat, y as nat + 1, stride as nat));
        y = y + 1;
    }
    Ok(out)
}

/// Result of `image::imageops::resize` with `FilterType::Triangle` on the
/// RGBA image `width` x `height` held in `pixels`, resized to
/// `new_width` x `new_height`, as raw RGBA bytes. The resampling takes pages
/// to state and depends on its arguments alone.
pub uninterp spec fn triangle_resized(pixels: Seq<u8>, width: u32, height: u32, new_width: u32, new_height: u32) -> Seq<u8>;

/// Result of encoding the RGBA image `width` x `height` held in `pixels` as
/// PNG with `DynamicImage::write_to` and `ImageFormat::Png`.
pub uninterp spec fn png_encoding(pixels: Seq<u8>, width: u32, height: u32) -> Seq<u8>;

/// Builds an RGBA image from `pixels` with `ImageBuffer::from_raw` (which
/// returns `None` when the buffer holds fewer than `4 * width * height`
/// bytes), resizes it with `image::imageops::resize` and the Triangle filter,
/// and returns the raw bytes of the result. The claim: the result exists
/// exactly when the buffer is large enough, has `4 * new_width *
/// new_height` bytes (the size of the `ImageBuffer::new` it is written to)
/// and equals [`triangle_resized`]. When the new size is the old one,
/// `resize` copies the image pixel by pixel into a buffer of that size, so
/// the result is the first `4 * width * height` bytes of `pixels`.
#[verifier::external_body]
fn resize_rgba(pixels: Vec<u8>, width: u32, height: u32, new_width: u32, new_height: u32) -> (out: Option<Vec<u8>>)
    requires
        4 * new_width * new_height <= usize::MAX,
    ensures
        out is Some <==> 4 * width * height <= pixels@.len(),
        out matches Some(v) ==> v@.len() == 4 * new_width * new_height && v@ == triangle_resized(
            pixels@,
            width,
            height,
            new_width,
            new_height,
        ),
        out matches Some(v) ==> (new_width == width && new_height == height ==> v@ == pixels@.take(
            4 * width * height,
        )),
{
    match RgbaImage::from_raw(width, height, pixels) {
        Some(image) => Some(
            image::imageops::resize(&image, new_width, new_height, image::imageops::FilterType::Triangle).into_raw(),
        ),
        None => None,
    }
}

/// Builds an RGBA image from `pixels` with `ImageBuffer::from_raw` and
/// encodes it as PNG into memory with `DynamicImage::write_to`. The PNG
/// encoder asserts that the buffer holds exactly `4 * width * height` bytes,
/// and panics otherwise, so that is required; `from_raw` then always gives
/// an image. The claim: the encoding fails exactly when the width or the
/// height is zero (the png writer's only error for such an image, as writing
/// into a `Vec` cannot fail), and the encoded bytes equal [`png_encoding`].
#[verifier::external_body]
fn encode_png(pixels: Vec<u8>, width: u32, height: u32) -> (out: Option<Result<Vec<u8>, ImageError>>)
    requires
        pixels@.len() == 4 * width * height,
    ensures
        out is Some,
        out matches Some(r) ==> (r is Ok <==> width > 0 && height > 0),
        out matches Some(Ok(v)) ==> v@ == png_encoding(pixels@, width, height),
{
    match RgbaImage::from_raw(width, height, pixels) {
        Some(image) => {
            let mut encoded: Vec<u8> = Vec::new();
            match DynamicImage::ImageRgba8(image).write_to(&mut Cursor::new(&mut encoded), ImageFormat::Png) {
                Ok(()) => Some(Ok(encoded)),
                Err(error) => Some(Err(error)),
            }
        },
        None => None,
    }
}

/// Renders `error` with its `Display` implementation. The text is not
/// stated.
#[verifier::external_body]
fn image_error_text(error: &ImageError) -> String {
    error.to_string()
}

/// The PNG preview of a captured BGRA frame, scaled to
/// `target_width` x `target_height`.
pub open spec fn thumbnail_png(raw: Seq<u8>, width: u32, height: u32, stride: u32, target_width: u32, target_height: u32) -> Seq<u8> {
    png_encoding(
        triangle_resized(rgba_rows(raw, width as nat, height as nat, stride as nat), width, height, target_width, target_height),
        target_width,
        target_height,
    )
}

/// Converts a captured BGRA frame to RGBA, scales it to
/// `target_width` x `target_height` and encodes it as PNG. Fails with
/// "Frame buffer ended unexpectedly." when a row runs past the buffer, and
/// with "Failed to encode PNG: " and the encoder's message when a target
/// dimension is zero; succeeds otherwise. A frame rendered at its own size
/// is the PNG of its RGBA pixels, unscaled.
pub fn render_thumbnail(
    raw: &[u8],
    width: u32,
    height: u32,
    stride: u32,
    target_width: u32,
    target_height: u32,
) -> (res: Result<Vec<u8>, String>)
    requires
        width * height * 4 <= u32::MAX,
        height > 0 ==> (height - 1) * stride <= u32::MAX,
        4 * target_width * target_height <= usize::MAX,
    ensures
        !rows_fit(raw@.len() as int, width as int, height as int, stride as int) ==> (res matches Err(e)
            && e@ == truncated_frame_message()),
        res matches Ok(v) ==> rows_fit(raw@.len() as int, width as int, height as int, stride as int)
            && v@ == thumbnail_png(raw@, width, height, stride, target_width, target_height),
        res matches Ok(v) ==> (target_width == width && target_height == height ==> v@ == png_encoding(
            rgba_rows(raw@, width as nat, height as nat, stride as nat),
            width,
            height,
        )),
        rows_fit(raw@.len() as int, width as int, height as int, stride as int) ==> (res is Ok <==> (
        target_width > 0 && target_height > 0)),
        rows_fit(raw@.len() as int, width as int, height as int, stride as int) ==> (res is Ok || (
        res matches Err(e) && e@.take(22) == "Failed to encode PNG: "@)),
{
    let rgba = match bgra_to_rgba(raw, width, height, stride) {
        Ok(bytes) => bytes,
        Err(error) => return Err(error),
    };
    proof {
        lemma_rgba_rows_len(raw@, width as nat, height as nat, stride as nat);
    }
    let ghost rgba_bytes = rgba@;
    assert(rgba_bytes.take(4 * width * height) =~= rgba_bytes);
    let resized = match resize_rgba(rgba, width, height, target_width, target_height) {
        Some(bytes) => bytes,
        None => return Err(String::from_str("Failed to construct RGBA image from screencopy buffer.")),
    };
    match encode_png(resized, target_width, target_height) {
        Some(Ok(encoded)) => Ok(encoded),
        Some(Err(error)) => {
            let mut message = String::from_str("Failed to encode PNG: ");
            let detail = image_error_text(&error);
            let ghost prefix = message@;
            proof {
                reveal_strlit("Failed to encode PNG: ");
            }
            assert(prefix.len() == 22);
            message.append(detail.as_str());
            assert(message@.take(22) =~= prefix);
            Err(message)
        },
        None => Err(String::from_str("Failed to construct RGBA image from screencopy buffer.")),
    }
}

proof fn lemma_swapped_len(row: Seq<u8>, count: nat)
    ensures
        swapped_pixels(row, count).len() == 4 * count,
    decreases count,
{
    if count > 0 {
        lemma_swapped_len(row, (count - 1) as nat);
    }
}

/// The RGBA bytes hold four bytes per pixel.
pub proof fn lemma_rgba_rows_len(raw: Seq<u8>, width: nat, height: nat, stride: nat)
    ensures
        rgba_rows(raw, width, height, stride).len() == 4 * width * height,
    decreases height,
{
    if height > 0 {
        lemma_rgba_rows_len(raw, width, (height - 1) as nat, stride);
        let start = (height - 1) * stride;
        lemma_swapped_len(raw.subrange(start as int, start + 4 * width), width);
        let h1 = (height - 1) as nat;
        let prev = rgba_rows(raw, width, h1, stride);
        let last = swapped_pixels(raw.subrange(start as int, start + 4 * width), width);
        assert(rgba_rows(raw, width, height, stride) == prev + last);
        assert(prev.len() == 4 * width * h1);
        assert(last.len() == 4 * width);
        assert(4 * width * h1 + 4 * width == 4 * width * height) by (nonlinear_arith)
            requires
                h1 + 1 == height,
        ;
    } else {
        assert(4 * width * height == 0) by (nonlinear_arith)
            requires
                height == 0,
        ;
    }
}

proof fn lemma_swapped_pixel(row: Seq<u8>, count: nat, x: int)
    requires
        0 <= x < count,
    ensures
        swapped_pixels(row, count)[4 * x + 0] == row[4 * x + 2],
        swapped_pixels(row, count)[4 * x + 1] == row[4 * x + 1],
        swapped_pixels(row, count)[4 * x + 2] == row[4 * x + 0],
        swapped_pixels(row, count)[4 * x + 3] == row[4 * x + 3],
    decreases count,
{
    let c1 = (count - 1) as nat;
    lemma_swapped_len(row, c1);
    if x < c1 {
        lemma_swapped_pixel(row, c1, x);
    }
}

/// The RGBA image keeps the frame's layout: it is `width` pixels wide and
/// `height` tall, and its pixel at column `x` of row `y` (bytes from
/// `4 * (y * width + x)`) is the frame's pixel at `y * stride + 4 * x` with
/// blue and red swapped.
pub proof fn law_rgba_pixels_keep_frame_layout(raw: Seq<u8>, width: nat, height: nat, stride: nat, x: int, y: int)
    requires
        rows_fit(raw.len() as int, width as int, height as int, stride as int),
        0 <= x < width,
        0 <= y < height,
    ensures
        ({
            let rgba = rgba_rows(raw, width, height, stride);
            let p = 4 * (y * width + x);
            let q = y * stride + 4 * x;
            &&& rgba.len() == 4 * width * height
            &&& rgba[p + 0] == raw[q + 2]
            &&& rgba[p + 1] == raw[q + 1]
            &&& rgba[p + 2] == raw[q + 0]
            &&& rgba[p + 3] == raw[q + 3]
        }),
    decreases height,
{
    lemma_rgba_rows_len(raw, width, height, stride);
    let h1 = (height - 1) as nat;
    let p = 4 * (y * width + x);
    lemma_rgba_rows_len(raw, width, h1, stride);
    let start = h1 * stride;
    let row = raw.subrange(start as int, (start + 4 * width) as int);
    let prev = rgba_rows(raw, width, h1, stride);
    let last = swapped_pixels(row, width);
    lemma_swapped_len(row, width);
    assert(rgba_rows(raw, width, height, stride) == prev + last);
    if y < h1 {
        assert(rows_fit(raw.len() as int, width as int, h1 as int, stride as int)) by {
            assert forall|z: int| 0 <= z < h1 implies #[trigger] (z * stride) + 4 * width <= raw.len() by {
                assert(0 <= z < height);
            }
        }
        law_rgba_pixels_keep_frame_layout(raw, width, h1, stride, x, y);
        assert(p + 3 < 4 * width * h1) by (nonlinear_arith)
            requires
                p == 4 * (y * width + x),
                0 <= x < width,
                0 <= y < h1,
        ;
    } else {
        assert(start + 4 * width <= raw.len()) by {
            assert(0 <= h1 < height);
            assert((h1 as int * stride) + 4 * width <= raw.len());
        }
        lemma_swapped_pixel(row, width, x);
        assert(p == 4 * width * h1 + 4 * x) by (nonlinear_arith)
            requires
                p == 4 * (y * width + x),
                y == h1,
        ;
        assert(y * stride == start);
        assert(row[4 * x + 0] == raw[start + 4 * x + 0]);
        assert(row[4 * x + 1] == raw[start + 4 * x + 1]);
        assert(row[4 * x + 2] == raw[start + 4 * x + 2]);
        assert(row[4 * x + 3] == raw[start + 4 * x + 3]);
    }
}

} // verus!
