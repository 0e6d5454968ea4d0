//! Decoding cover pictures, and turning a WebP cover into a PNG.
use image::DynamicImage::{
    ImageLuma16, ImageLuma8, ImageLumaA16, ImageLumaA8, ImageRgb16, ImageRgb8, ImageRgba16,
    ImageRgba8,
};
use image::GenericImageView;
use vstd::prelude::*;
use vstd::string::*;

use crate::picture::Samples::{L16, L8, La16, La8, Rgb16, Rgb8, Rgba16, Rgba8};

verus! {

/// The samples of a decoded picture, pixel by pixel and row by row. The variant says which channels
/// a pixel has (grey or red, green and blue, each with or without alpha) and how many bits a sample
/// has.
#[derive(Clone, PartialEq, Eq, Debug)]
pub enum Samples {
    L8(Vec<u8>),
    La8(Vec<u8>),
    Rgb8(Vec<u8>),
    Rgba8(Vec<u8>),
    L16(Vec<u16>),
    La16(Vec<u16>),
    Rgb16(Vec<u16>),
    Rgba16(Vec<u16>),
}

/// The samples of a picture, in the abstract.
#[verifier::ext_equal]
pub ghost struct Raster {
    pub channels: nat,
    pub bits: nat,
    pub values: Seq<u16>,
}

/// Samples of 8 bits.
pub open spec fn eight(channels: nat, data: Seq<u8>) -> Raster {
    Raster { channels, bits: 8, values: Seq::new(data.len(), |i: int| data[i] as u16) }
}

/// Samples of 16 bits.
pub open spec fn sixteen(channels: nat, data: Seq<u16>) -> Raster {
    Raster { channels, bits: 16, values: data }
}

impl View for Samples {
    type V = Raster;

    open spec fn view(&self) -> Raster {
        match self {
            Samples::L8(v) => eight(1, v@),
            Samples::La8(v) => eight(2, v@),
            Samples::Rgb8(v) => eight(3, v@),
            Samples::Rgba8(v) => eight(4, v@),
            Samples::L16(v) => sixteen(1, v@),
            Samples::La16(v) => sixteen(2, v@),
            Samples::Rgb16(v) => sixteen(3, v@),
            Samples::Rgba16(v) => sixteen(4, v@),
        }
    }
}

/// A decoded picture, with the colour type and the depth that it was stored with.
#[derive(Clone, PartialEq, Eq, Debug)]
pub struct Picture {
    pub width: u32,
    pub height: u32,
    pub samples: Samples,
}

impl Picture {
    /// Every pixel has a sample for each of its channels.
    pub open spec fn wf(self) -> bool {
        self.samples@.values.len() == self.width * self.height * self.samples@.channels
    }

    /// How many samples a pixel has.
    pub fn channels(&self) -> (r: u8)
        ensures
            r == self.samples@.channels,
    {
        match self.samples {
            Samples::L8(_) | Samples::L16(_) => 1,
            Samples::La8(_) | Samples::La16(_) => 2,
            Samples::Rgb8(_) | Samples::Rgb16(_) => 3,
            Samples::Rgba8(_) | Samples::Rgba16(_) => 4,
        }
    }

    /// How many bits a sample has.
    pub fn bits(&self) -> (r: u8)
        ensures
            r == self.samples@.bits,
    {
        match self.samples {
            Samples::L8(_) | Samples::La8(_) | Samples::Rgb8(_) | Samples::Rgba8(_) => 8,
            Samples::L16(_) | Samples::La16(_) | Samples::Rgb16(_) | Samples::Rgba16(_) => 16,
        }
    }
}

/// What `image` makes of an encoded picture: its width, its height and its samples, or why it could
/// not be decoded.
pub uninterp spec fn decoded_picture(bytes: Seq<u8>) -> Result<(u32, u32, Raster), Seq<char>>;

/// `image::guess_format` tells the format from the first bytes, and
/// `image::load_from_memory_with_format` decodes the picture in it. The outcome rests on the bytes
/// alone; a picture has a sample for each channel of each pixel. PNG, JPEG and WebP, the formats
/// that are built in, hold no samples but those of 8 and 16 bits; any other kind would be brought to
/// 16 bits and four channels.
#[verifier::external_body]
fn read_picture(bytes: &[u8]) -> (r: Result<((u32, u32), Samples), String>)
    ensures
        (match r {
            Ok(p) => Ok((p.0.0, p.0.1, p.1@)),
            Err(e) => Err(e@),
        }) == decoded_picture(bytes@),
        r matches Ok(p) ==> p.1@.values.len() == p.0.0 * p.0.1 * p.1@.channels,
{
    let picture = image::guess_format(bytes)
        .and_then(|f| image::load_from_memory_with_format(bytes, f))
        .map_err(|e| e.to_string())?;
    Ok((picture.dimensions(), match picture {
        ImageLuma8(p) => L8(p.into_raw()),
        ImageLumaA8(p) => La8(p.into_raw()),
        ImageRgb8(p) => Rgb8(p.into_raw()),
        ImageRgba8(p) => Rgba8(p.into_raw()),
        ImageLuma16(p) => L16(p.into_raw()),
        ImageLumaA16(p) => La16(p.into_raw()),
        ImageRgb16(p) => Rgb16(p.into_raw()),
        ImageRgba16(p) => Rgba16(p.into_raw()),
        p => Rgba16(p.into_rgba16().into_raw()),
    }))
}

/// Decodes a picture in whatever format its first bytes announce.
pub fn decode_image_bytes(bytes: &[u8]) -> (r: Result<Picture, String>)
    ensures
        (match r {
            Ok(p) => Ok((p.width, p.height, p.samples@)),
            Err(e) => Err(e@),
        }) == decoded_picture(bytes@),
        r matches Ok(p) ==> p.wf(),
{
    match read_picture(bytes) {
        Ok(((width, height), samples)) => Ok(Picture { width, height, samples }),
        Err(e) => Err(e),
    }
}

/// The bytes begin as those of a WebP file: `RIFF`, four bytes for the length, `WEBP`.
pub open spec fn announces_webp(bytes: Seq<u8>) -> bool {
    &&& bytes.len() >= 12
    &&& bytes[0] == 0x52 && bytes[1] == 0x49 && bytes[2] == 0x46 && bytes[3] == 0x46
    &&& bytes[8] == 0x57 && bytes[9] == 0x45 && bytes[10] == 0x42 && bytes[11] == 0x50
}

/// `image::guess_format` tells a WebP file by its first twelve bytes, of which it leaves the length
/// out; no other format that it knows begins in the same way.
#[verifier::external_body]
fn guesses_webp(bytes: &[u8]) -> (r: bool)
    ensures
        r == announces_webp(bytes@),
{
    matches!(image::guess_format(bytes), Ok(image::ImageFormat::WebP))
}

/// The picture in a tier's file. A tier is a WebP file by its name, so another format in it does not
/// count.
pub open spec fn tier_picture(bytes: Seq<u8>) -> Option<(u32, u32, Raster)> {
    if announces_webp(bytes) {
        match decoded_picture(bytes) {
            Ok(p) => Some(p),
            Err(_) => None,
        }
    } else {
        None
    }
}

/// Decodes the file of a tier.
pub fn decode_tier_bytes(bytes: &[u8]) -> (r: Option<Picture>)
    ensures
        (match r {
            Some(p) => Some((p.width, p.height, p.samples@)),
            None => None,
        }) == tier_picture(bytes@),
        !announces_webp(bytes@) ==> r is None,
        r matches Some(p) ==> p.wf(),
{
    if !guesses_webp(bytes) {
        return None;
    }
    match decode_image_bytes(bytes) {
        Ok(p) => Some(p),
        Err(_) => None,
    }
}

/// The pixels of a decoded WebP picture: three bytes each, or four with an alpha channel.
pub struct WebpPixels {
    pub width: u32,
    pub height: u32,
    pub alpha: bool,
    pub data: Vec<u8>,
}

/// The pixels of a WebP picture, in the abstract.
#[verifier::ext_equal]
pub ghost struct Pixels {
    pub width: u32,
    pub height: u32,
    pub alpha: bool,
    pub data: Seq<u8>,
}

impl View for WebpPixels {
    type V = Pixels;

    open spec fn view(&self) -> Pixels {
        Pixels { width: self.width, height: self.height, alpha: self.alpha, data: self.data@ }
    }
}

/// The number of bytes that a picture of this size takes.
pub open spec fn pixel_bytes(width: u32, height: u32, alpha: bool) -> int {
    width * height * (if alpha {
        4int
    } else {
        3int
    })
}

/// What `webp` makes of a WebP picture: its width, its height, whether it has an alpha channel, and
/// its pixels; nothing where it is no picture, or an animation.
pub uninterp spec fn decoded_webp(bytes: Seq<u8>) -> Option<(u32, u32, bool, Seq<u8>)>;

/// `webp::Decoder::decode` decodes a still WebP picture. The outcome rests on the bytes alone; there
/// are three bytes for every pixel, or four with an alpha channel.
#[verifier::external_body]
fn read_webp(bytes: &[u8]) -> (r: Option<WebpPixels>)
    ensures
        (match r {
            Some(p) => Some((p.width, p.height, p.alpha, p.data@)),
            None => None,
        }) == decoded_webp(bytes@),
        r matches Some(p) ==> p.data@.len() == pixel_bytes(p.width, p.height, p.alpha),
{
    let picture = webp::Decoder::new(bytes).decode()?;
    Some(
        WebpPixels {
            width: picture.width(),
            height: picture.height(),
            alpha: picture.is_alpha(),
            data: picture.to_vec(),
        },
    )
}

/// What `image` writes for these pixels as a PNG, or why it could not.
pub uninterp spec fn encoded_png(
    data: Seq<u8>,
    width: u32,
    height: u32,
    alpha: bool,
) -> Result<Seq<u8>, Seq<char>>;

/// `image::write_buffer_with_format` writes pixels as a PNG. It panics unless there are as many
/// bytes as the size calls for; the outcome rests on the pixels and the size alone.
#[verifier::external_body]
fn write_png(picture: &WebpPixels) -> (r: Result<Vec<u8>, String>)
    requires
        picture.data@.len() == pixel_bytes(picture.width, picture.height, picture.alpha),
    ensures
        (match r {
            Ok(v) => Ok(v@),
            Err(e) => Err(e@),
        }) == encoded_png(picture.data@, picture.width, picture.height, picture.alpha),
{
    let color = match picture.alpha {
        true => image::ExtendedColorType::Rgba8,
        false => image::ExtendedColorType::Rgb8,
    };
    let mut out = std::io::Cursor::new(Vec::new());
    let (data, w, h) = (picture.data.as_slice(), picture.width, picture.height);
    image::write_buffer_with_format(&mut out, data, w, h, color, image::ImageFormat::Png)
        .map_err(|e| e.to_string())?;
    Ok(out.into_inner())
}

/// The PNG for decoded WebP pixels; without any, the reason is that nothing came out of the decoder.
pub open spec fn png_of_pixels(pixels: Option<(u32, u32, bool, Seq<u8>)>) -> Result<
    Seq<u8>,
    Seq<char>,
> {
    match pixels {
        Some(p) => encoded_png(p.3, p.0, p.1, p.2),
        None => Err("WebP decode returned None"@),
    }
}

/// The PNG for decoded WebP pixels.
pub fn pixels_to_png(pixels: Option<WebpPixels>) -> (r: Result<Vec<u8>, String>)
    requires
        pixels matches Some(p) ==> p.data@.len() == pixel_bytes(p.width, p.height, p.alpha),
    ensures
        (match r {
            Ok(v) => Ok(v@),
            Err(e) => Err(e@),
        }) == png_of_pixels(
            match pixels {
                Some(p) => Some((p.width, p.height, p.alpha, p.data@)),
                None => None,
            },
        ),
{
    match pixels {
        Some(p) => write_png(&p),
        None => Err("WebP decode returned None".to_owned()),
    }
}

/// Turns a WebP file's bytes into those of a PNG file with the same pixels.
pub fn webp_to_png(bytes: &[u8]) -> (r: Result<Vec<u8>, String>)
    ensures
        (match r {
            Ok(v) => Ok(v@),
            Err(e) => Err(e@),
        }) == png_of_pixels(decoded_webp(bytes@)),
{
    pixels_to_png(read_webp(bytes))
}

/// Bytes announce a WebP picture just where they begin with `RIFF`, any four bytes and `WEBP`.
pub proof fn law_webp_is_announced_in_front(size: Seq<u8>, rest: Seq<u8>, bytes: Seq<u8>)
    requires
        size.len() == 4,
    ensures
        announces_webp(
            seq![0x52u8, 0x49u8, 0x46u8, 0x46u8] + size + seq![0x57u8, 0x45u8, 0x42u8, 0x50u8]
                + rest,
        ),
        announces_webp(bytes) ==> bytes.take(4) == seq![0x52u8, 0x49u8, 0x46u8, 0x46u8]
            && bytes.subrange(8, 12) == seq![0x57u8, 0x45u8, 0x42u8, 0x50u8],
{
    let whole = seq![0x52u8, 0x49u8, 0x46u8, 0x46u8] + size + seq![
        0x57u8,
        0x45u8,
        0x42u8,
        0x50u8,
    ] + rest;
    assert(whole[0] == 0x52 && whole[1] == 0x49 && whole[2] == 0x46 && whole[3] == 0x46);
    assert(whole[8] == 0x57 && whole[9] == 0x45 && whole[10] == 0x42 && whole[11] == 0x50);
    if announces_webp(bytes) {
        assert(bytes.take(4) =~= seq![0x52u8, 0x49u8, 0x46u8, 0x46u8]);
        assert(bytes.subrange(8, 12) =~= seq![0x57u8, 0x45u8, 0x42u8, 0x50u8]);
    }
}

/// A tier is there where its bytes announce a WebP picture and can be decoded, and is what they
/// decode to.
pub proof fn law_tier_is_what_its_bytes_decode_to(bytes: Seq<u8>)
    ensures
        tier_picture(bytes) is Some <==> announces_webp(bytes) && decoded_picture(bytes) is Ok,
        tier_picture(bytes) matches Some(p) ==> decoded_picture(bytes) == Ok::<
            (u32, u32, Raster),
            Seq<char>,
        >(p),
{
}

/// Every pixel takes three bytes, and one more with an alpha channel.
pub proof fn law_alpha_takes_one_byte_more(width: u32, height: u32)
    ensures
        pixel_bytes(width, height, false) == 3 * (width * height),
        pixel_bytes(width, height, true) == pixel_bytes(width, height, false) + width * height,
{
    assert((width * height) * 3int == 3 * (width * height)) by (nonlinear_arith);
    assert((width * height) * 4int == 3 * (width * height) + width * height) by (nonlinear_arith);
}

/// A cover that was decoded is written with its own pixels and size; one that was not is an error.
pub proof fn law_decoded_cover_is_written_as_it_is(
    width: u32,
    height: u32,
    alpha: bool,
    data: Seq<u8>,
)
    ensures
        png_of_pixels(Some((width, height, alpha, data))) == encoded_png(
            data,
            width,
            height,
            alpha,
        ),
        png_of_pixels(None) == Err::<Seq<u8>, Seq<char>>("WebP decode returned None"@),
{
}

} // verus!
