//! The theme synthesizer: samples an image, reduces its pixels to a primary
//! colour and derives the rest of the theme from it.

use vstd::prelude::*;
use crate::color::{
    active_text, active_text_color, channel_value, complement, complementary_color,
    normal_text, normal_text_color, Rgb, RgbValues,
};
use crate::reduce::{
    average, first_most_frequent, is_most_frequent, mean_of, median, median_of, prevalent, sort_ascending,
};

verus! {

/// How the pixels of an image are reduced to one colour.
#[derive(Clone, Copy, Debug, PartialEq, Eq, Structural)]
pub enum Centrality {
    /// The mean of each channel.
    Average,
    /// The median of each channel.
    Median,
    /// The most frequent colour.
    Prevalent,
}

/// The colours of a theme.
#[derive(Clone, Copy, Debug, PartialEq, Eq, Structural)]
pub struct Theme {
    pub primary_color: RgbValues,
    pub secondary_color: RgbValues,
    pub active_text_color: RgbValues,
    pub normal_text_color: RgbValues,
}

/// Why no theme could be derived from an image.
#[derive(Clone, Copy, Debug, PartialEq, Eq, Structural)]
pub enum ThemeError {
    /// The pixel data does not match the image's dimensions.
    DecodeFailure,
    /// The image has no pixels.
    EmptyImage,
    /// A task that reduced one channel failed, where the channels are
    /// reduced concurrently.
    ChannelTaskFailure,
}

/// `r` is the error `e`.
pub open spec fn fails_with<T>(r: Result<T, ThemeError>, e: ThemeError) -> bool {
    match r {
        Ok(_) => false,
        Err(x) => x == e,
    }
}

/// The theme whose primary colour is `primary`.
pub open spec fn theme_of(primary: RgbValues) -> Theme {
    Theme {
        primary_color: primary,
        secondary_color: complement(primary),
        active_text_color: active_text(primary),
        normal_text_color: normal_text(active_text(primary)),
    }
}

/// The pixels held by `raw`, three bytes (red, green, blue) to a pixel; a
/// trailing partial pixel is ignored.
pub open spec fn pixels_of(raw: Seq<u8>) -> Seq<RgbValues> {
    Seq::new(
        raw.len() / 3,
        |i: int| RgbValues { red: raw[3 * i], green: raw[3 * i + 1], blue: raw[3 * i + 2] },
    )
}

/// The values of channel `rgb` of each of `pixels`, in order.
pub open spec fn channel_of(pixels: Seq<RgbValues>, rgb: Rgb) -> Seq<u8> {
    pixels.map_values(|p: RgbValues| channel_value(p, rgb))
}

/// One channel's values reduced by the mean, or by the median.
pub open spec fn reduced(s: Seq<u8>, centrality: Centrality) -> int {
    if centrality == Centrality::Median {
        median_of(s)
    } else {
        mean_of(s)
    }
}

/// `c` is the primary colour that `centrality` gives for `pixels`: the most
/// frequent colour (on a tie, the first to reach the top count), or each
/// channel reduced on its own.
pub open spec fn is_primary_for(pixels: Seq<RgbValues>, centrality: Centrality, c: RgbValues) -> bool {
    if centrality == Centrality::Prevalent {
        c == first_most_frequent(pixels) && is_most_frequent(pixels, c)
    } else {
        &&& c.red == reduced(channel_of(pixels, Rgb::Red), centrality)
        &&& c.green == reduced(channel_of(pixels, Rgb::Green), centrality)
        &&& c.blue == reduced(channel_of(pixels, Rgb::Blue), centrality)
    }
}

/// The sampled size of a dimension of `d` pixels: a quarter of it, and at
/// least one pixel.
pub open spec fn sampled_dimension(d: u32) -> u32 {
    if d / 4 == 0 {
        1
    } else {
        d / 4
    }
}

/// What image::imageops::thumbnail makes, as raw RGB bytes, of the `width` by
/// `height` image `raw` when scaled to `new_width` by `new_height`.
pub uninterp spec fn thumbnail_of(
    width: u32,
    height: u32,
    raw: Seq<u8>,
    new_width: u32,
    new_height: u32,
) -> Seq<u8>;

/// Relies on image::RgbImage::from_raw, which accepts a buffer of exactly
/// three bytes per pixel, and on image::imageops::thumbnail, which returns an
/// image of exactly `new_width` by `new_height` pixels that depends on its
/// arguments alone. It sums the bytes that one output pixel covers in a
/// `u32`, so the scale is bounded: no output pixel covers more than 8 by 8
/// (partly 9 by 9) input pixels.
#[verifier::external_body]
fn thumbnail(width: u32, height: u32, raw: Vec<u8>, new_width: u32, new_height: u32) -> (r: Vec<
    u8,
>)
    requires
        raw@.len() == 3 * width * height,
        3 * new_width * new_height <= usize::MAX,
        1 <= new_width,
        1 <= new_height,
        width <= 8 * new_width,
        height <= 8 * new_height,
    ensures
        r@ == thumbnail_of(width, height, raw@, new_width, new_height),
        r@.len() == 3 * new_width * new_height,
{
    let image = image::RgbImage::from_raw(width, height, raw).unwrap();
    image::imageops::thumbnail(&image, new_width, new_height).into_raw()
}

/// The sampled size of a dimension of `d` pixels.
pub fn sample_dimension(d: u32) -> (r: u32)
    ensures
        r == sampled_dimension(d),
        d > 0 ==> 1 <= r <= d,
        d <= 8 * r,
{
    let quarter = d / 4;
    if quarter == 0 {
        1
    } else {
        quarter
    }
}

/// The pixels held by `raw`, three bytes to a pixel.
pub fn pixels_from_raw(raw: &Vec<u8>) -> (r: Vec<RgbValues>)
    ensures
        r@ == pixels_of(raw@),
{
    let len: usize = raw.len();
    let n: usize = len / 3;
    let mut out: Vec<RgbValues> = Vec::new();
    let mut i: usize = 0;
    while i < n
        invariant
            i <= n,
            len == raw@.len(),
            n == len / 3,
            out@.len() == i,
            forall|j: int| 0 <= j < i ==> out@[j] == pixels_of(raw@)[j],
        decreases n - i,
    {
        assert(3 * i + 2 < raw@.len()) by (nonlinear_arith)
            requires
                i < n,
                n == raw@.len() / 3,
                len == raw@.len(),
        ;
        let base: usize = 3 * i;
        out.push(RgbValues { red: raw[base], green: raw[base + 1], blue: raw[base + 2] });
        i = i + 1;
    }
    assert(out@ =~= pixels_of(raw@));
    out
}

/// The values of one channel of each of `pixels`, in order.
pub fn channel(pixels: &Vec<RgbValues>, rgb: Rgb) -> (r: Vec<u8>)
    ensures
        r@ == channel_of(pixels@, rgb),
{
    let mut out: Vec<u8> = Vec::new();
    let mut i: usize = 0;
    while i < pixels.len()
        invariant
            i <= pixels@.len(),
            out@.len() == i,
            forall|j: int| 0 <= j < i ==> out@[j] == channel_value(pixels@[j], rgb),
        decreases pixels@.len() - i,
    {
        out.push(pixels[i].get(rgb));
        i = i + 1;
    }
    assert(out@ =~= channel_of(pixels@, rgb));
    out
}

/// One channel's values reduced by the mean or by the median.
pub fn reduce_channel(values: Vec<u8>, centrality: Centrality) -> (r: u8)
    requires
        values@.len() > 0,
        centrality != Centrality::Prevalent,
    ensures
        r == reduced(values@, centrality),
{
    if centrality == Centrality::Median {
        let mut sorted = values;
        sort_ascending(&mut sorted);
        median(sorted.as_slice())
    } else {
        average(values.as_slice())
    }
}

/// The theme whose primary colour is `primary`: its complement, and text
/// colours chosen by the brightness of `primary`.
pub fn theme_from_primary(primary: RgbValues) -> (r: Theme)
    ensures
        r == theme_of(primary),
{
    let secondary_color = complementary_color(&primary);
    let active = active_text_color(&primary);
    let normal = normal_text_color(&active);
    Theme {
        primary_color: primary,
        secondary_color,
        active_text_color: active,
        normal_text_color: normal,
    }
}

/// The theme of `pixels`, each channel reduced on its own by the mean or the
/// median, or the most frequent colour counted in one pass.
pub fn theme_from_pixels(pixels: &Vec<RgbValues>, centrality: Centrality) -> (r: Result<
    Theme,
    ThemeError,
>)
    ensures
        pixels@.len() == 0 <==> fails_with(r, ThemeError::EmptyImage),
        pixels@.len() > 0 <==> r is Ok,
        r matches Ok(t) ==> t == theme_of(t.primary_color) && is_primary_for(
            pixels@,
            centrality,
            t.primary_color,
        ),
{
    if pixels.len() == 0 {
        return Err(ThemeError::EmptyImage);
    }
    let primary = if centrality == Centrality::Prevalent {
        prevalent(pixels.as_slice())
    } else {
        let red = reduce_channel(channel(pixels, Rgb::Red), centrality);
        let green = reduce_channel(channel(pixels, Rgb::Green), centrality);
        let blue = reduce_channel(channel(pixels, Rgb::Blue), centrality);
        RgbValues { red, green, blue }
    };
    Ok(theme_from_primary(primary))
}

/// The pixels that stand for the `width` by `height` image whose pixels
/// `data` holds, three bytes (red, green, blue) to a pixel, row by row: the
/// image scaled down with image::imageops::thumbnail to a quarter of each
/// dimension, and to at least one pixel.
pub fn sample_pixels(width: u32, height: u32, data: Vec<u8>) -> (r: Result<
    Vec<RgbValues>,
    ThemeError,
>)
    ensures
        data@.len() != 3 * width * height <==> fails_with(r, ThemeError::DecodeFailure),
        data@.len() == 3 * width * height && width * height == 0 <==> fails_with(
            r,
            ThemeError::EmptyImage,
        ),
        data@.len() == 3 * width * height && width * height > 0 <==> r is Ok,
        r matches Ok(p) ==> p@.len() > 0 && p@ == pixels_of(
            thumbnail_of(width, height, data@, sampled_dimension(width), sampled_dimension(height)),
        ),
{
    assert(0 <= width * height <= 0xffff_ffff * 0xffff_ffff && 3 * width * height == 3 * (width
        * height) && (width * height == 0 <==> (width == 0 || height == 0))) by (nonlinear_arith)
        requires
            0 <= width <= 0xffff_ffff,
            0 <= height <= 0xffff_ffff,
    ;
    let area: u128 = (width as u128) * (height as u128);
    if data.len() as u128 != 3 * area {
        return Err(ThemeError::DecodeFailure);
    }
    if width == 0 || height == 0 {
        return Err(ThemeError::EmptyImage);
    }
    let sampled_width = sample_dimension(width);
    let sampled_height = sample_dimension(height);
    assert(3 * sampled_width * sampled_height <= 3 * width * height) by (nonlinear_arith)
        requires
            1 <= sampled_width <= width,
            1 <= sampled_height <= height,
    ;
    let samples = thumbnail(width, height, data, sampled_width, sampled_height);
    assert(samples@.len() / 3 == sampled_width * sampled_height && sampled_width * sampled_height
        > 0) by (nonlinear_arith)
        requires
            samples@.len() == 3 * sampled_width * sampled_height,
            1 <= sampled_width,
            1 <= sampled_height,
    ;
    Ok(pixels_from_raw(&samples))
}

/// The theme of the `width` by `height` image whose pixels `data` holds,
/// three bytes (red, green, blue) to a pixel, row by row, reduced from the
/// pixels that `sample_pixels` takes from it.
pub fn calculate_theme(width: u32, height: u32, data: Vec<u8>, centrality: Centrality) -> (r:
    Result<Theme, ThemeError>)
    ensures
        data@.len() != 3 * width * height <==> fails_with(r, ThemeError::DecodeFailure),
        data@.len() == 3 * width * height && width * height == 0 <==> fails_with(
            r,
            ThemeError::EmptyImage,
        ),
        data@.len() == 3 * width * height && width * height > 0 <==> r is Ok,
        r matches Ok(t) ==> t == theme_of(t.primary_color) && is_primary_for(
            pixels_of(
                thumbnail_of(
                    width,
                    height,
                    data@,
                    sampled_dimension(width),
                    sampled_dimension(height),
                ),
            ),
            centrality,
            t.primary_color,
        ),
{
    match sample_pixels(width, height, data) {
        Ok(pixels) => theme_from_pixels(&pixels, centrality),
        Err(e) => Err(e),
    }
}

} // verus!
