//! Decoded raster images and their channel layouts.
//!
//! Decoders yield interleaved 8-bit samples with one, three or four components
//! per pixel. [`Image::from_pixels`] brings such samples into the layout a
//! [`Config`] asks for: grey, RGBA or BGRA, with a default alpha for pixels
//! that carry none.

use vstd::prelude::*;

verus! {

/// Container format of an encoded image.
#[derive(Clone, Copy)]
pub enum Format {
    Jpg,
    Png,
}

/// Channel layout of a decoded image.
#[derive(Clone, Copy)]
pub enum Channels {
    L,
    RGBA,
    BGRA,
}

impl Channels {
    /// Samples per pixel in this layout.
    pub open spec fn count(self) -> u8 {
        match self {
            Channels::L => 1,
            _ => 4,
        }
    }

    /// Whether decoded data with `components` samples per pixel can be brought into this
    /// layout: grey from grey, colour from RGB or RGBA.
    pub open spec fn accepts(self, components: u8) -> bool {
        match self {
            Channels::L => components == 1,
            _ => components == 3 || components == 4,
        }
    }

    pub fn channels(self) -> (r: u8)
        ensures
            r == self.count(),
    {
        match self {
            Channels::L => 1,
            Channels::RGBA | Channels::BGRA => 4,
        }
    }

    pub fn check(self, components: u8) -> (r: bool)
        ensures
            r == self.accepts(components),
    {
        match self {
            Channels::L => components == 1,
            Channels::RGBA | Channels::BGRA => components == 3 || components == 4,
        }
    }
}

/// How to decode: the format, the wanted layout, and the alpha of pixels that have none.
#[derive(Clone, Copy)]
pub struct Config {
    pub format: Format,
    pub channels: Channels,
    pub default_alpha: u8,
}

impl Config {
    /// RGBA output, opaque where the source has no alpha.
    pub fn new(format: Format) -> (r: Self)
        ensures
            r.format == format,
            r.channels == Channels::RGBA,
            r.default_alpha == 255,
    {
        Config { format, channels: Channels::RGBA, default_alpha: 255 }
    }

    pub fn channels(self, channels: Channels) -> (r: Self)
        ensures
            r == (Config { channels, ..self }),
    {
        let mut c = self;
        c.channels = channels;
        c
    }

    pub fn default_alpha(self, default_alpha: u8) -> (r: Self)
        ensures
            r == (Config { default_alpha, ..self }),
    {
        let mut c = self;
        c.default_alpha = default_alpha;
        c
    }
}

pub struct Image {
    pub width: u32,
    pub height: u32,
    pub channels: u8,
    pub data: Vec<u8>,
}

/// RGB samples widened to RGBA, with `alpha` as the fourth sample of each pixel.
pub open spec fn with_alpha(rgb: Seq<u8>, alpha: u8) -> Seq<u8> {
    Seq::new(
        ((rgb.len() / 3) * 4) as nat,
        |k: int|
            if k % 4 == 3 {
                alpha
            } else {
                rgb[(k / 4) * 3 + k % 4]
            },
    )
}

/// Four-sample pixels with their first and third samples exchanged.
pub open spec fn swap_red_blue(px: Seq<u8>) -> Seq<u8> {
    Seq::new(
        px.len(),
        |k: int|
            if k - k % 4 + 4 <= px.len() && k % 4 == 0 {
                px[k + 2]
            } else if k - k % 4 + 4 <= px.len() && k % 4 == 2 {
                px[k - 2]
            } else {
                px[k]
            },
    )
}

/// Sample `channel` of each whole four-sample pixel.
pub open spec fn channel_of(px: Seq<u8>, channel: u8) -> Seq<u8> {
    Seq::new(px.len() / 4, |p: int| px[4 * p + channel])
}

/// The samples of an image decoded with `components` samples per pixel, in the layout
/// `config` asks for.
pub open spec fn converted(data: Seq<u8>, components: u8, config: Config) -> Seq<u8> {
    let rgba = if components == 3 {
        with_alpha(data, config.default_alpha)
    } else {
        data
    };
    if config.channels is BGRA {
        swap_red_blue(rgba)
    } else {
        rgba
    }
}

fn add_alpha(rgb: &Vec<u8>, alpha: u8) -> (r: Vec<u8>)
    ensures
        r@ == with_alpha(rgb@, alpha),
{
    let len = rgb.len();
    let n = len / 3;
    let mut out: Vec<u8> = Vec::with_capacity(n);
    let mut p: usize = 0;
    while p < n
        invariant
            len == rgb@.len(),
            n == rgb@.len() / 3,
            p <= n,
            out@ =~= Seq::new((p * 4) as nat, |k: int| if k % 4 == 3 { alpha } else { rgb@[(k / 4) * 3 + k % 4] }),
        decreases n - p,
    {
        assert(3 * p + 3 <= rgb@.len()) by (nonlinear_arith)
            requires
                p < n,
                n == rgb@.len() / 3,
        ;
        out.push(rgb[3 * p]);
        out.push(rgb[3 * p + 1]);
        out.push(rgb[3 * p + 2]);
        out.push(alpha);
        p = p + 1;
        assert(out@ =~= Seq::new((p * 4) as nat, |k: int| if k % 4 == 3 { alpha } else { rgb@[(k / 4) * 3 + k % 4] }));
    }
    out
}

fn swap_pixels(px: &mut Vec<u8>)
    requires
        old(px)@.len() % 4 == 0,
    ensures
        final(px)@ == swap_red_blue(old(px)@),
{
    let ghost orig = px@;
    let len = px.len();
    let n = len / 4;
    let mut p: usize = 0;
    while p < n
        invariant
            len == orig.len(),
            n == orig.len() / 4,
            orig.len() % 4 == 0,
            p <= n,
            px@.len() == orig.len(),
            forall|k: int| 0 <= k < 4 * p ==> #[trigger] px@[k] == swap_red_blue(orig)[k],
            forall|k: int| 4 * p <= k < orig.len() ==> #[trigger] px@[k] == orig[k],
        decreases n - p,
    {
        assert(4 * p + 4 <= orig.len()) by (nonlinear_arith)
            requires
                p < n,
                n == orig.len() / 4,
        ;
        let r = px[4 * p];
        let b = px[4 * p + 2];
        px.set(4 * p, b);
        px.set(4 * p + 2, r);
        p = p + 1;
    }
    assert(px@ =~= swap_red_blue(orig));
}

/// Relies on `zune_jpeg::JpegDecoder` with its default options (`new`, then `decode`, then
/// `info`): the decoded samples, the picture's width and height, and its number of colour
/// components; `None` where the decoder reports an error.
#[verifier::external_body]
pub(crate) fn decode_jpeg(raw: &[u8]) -> Option<(Vec<u8>, u16, u16, u8)> {
    let mut decoder = zune_jpeg::JpegDecoder::new(raw);
    let data = decoder.decode().ok()?;
    let info = decoder.info()?;
    Some((data, info.width, info.height, info.components))
}

/// Relies on `zune_png::PngDecoder` with its default options (`new`, `decode_headers`,
/// `get_dimensions`, `get_colorspace`, `decode`): the decoded 8-bit samples, width, height
/// and samples per pixel; `None` where the decoder reports an error or yields samples wider
/// than 8 bits.
#[verifier::external_body]
fn decode_png(raw: &[u8]) -> Option<(Vec<u8>, usize, usize, usize)> {
    let mut decoder = zune_png::PngDecoder::new(raw);
    decoder.decode_headers().ok()?;
    let (width, height) = decoder.get_dimensions()?;
    let components = decoder.get_colorspace()?.num_components();
    match decoder.decode().ok()? {
        zune_png::zune_core::result::DecodingResult::U8(data) => Some((data, width, height, components)),
        _ => None,
    }
}

impl Image {
    /// Decodes `raw` in `config`'s format and brings the samples into `config`'s layout
    /// (see [`Image::from_pixels`]). `None` where the decoder fails, or where its output
    /// cannot be brought into that layout.
    pub fn decode(raw: &[u8], config: Config) -> (r: Option<Image>)
        ensures
            r matches Some(img) ==> img.channels == config.channels.count() && img.data@.len()
                == img.width * img.height * img.channels,
    {
        match config.format {
            Format::Jpg => match decode_jpeg(raw) {
                Some((data, width, height, components)) => Image::from_pixels(
                    data,
                    width as u32,
                    height as u32,
                    components,
                    config,
                ),
                None => None,
            },
            Format::Png => match decode_png(raw) {
                Some((data, width, height, components)) => {
                    if width > u32::MAX as usize || height > u32::MAX as usize || components > 4 {
                        return None;
                    }
                    Image::from_pixels(data, width as u32, height as u32, components as u8, config)
                },
                None => None,
            },
        }
    }

    /// Brings decoded samples into the layout `config` asks for. `None` when the samples do
    /// not fill `width * height` pixels of `components` samples, or when `config`'s layout
    /// cannot be had from `components`.
    pub fn from_pixels(data: Vec<u8>, width: u32, height: u32, components: u8, config: Config) -> (r:
        Option<Image>)
        ensures
            r is None <==> (width * height * components != data@.len() || !config.channels.accepts(
                components,
            )),
            r matches Some(img) ==> img.width == width && img.height == height && img.channels
                == config.channels.count() && img.data@ == converted(data@, components, config),
            r matches Some(img) ==> img.data@.len() == width * height * img.channels,
    {
        let len = data.len();
        let num_pixels = match (width as usize).checked_mul(height as usize) {
            Some(n) => n,
            None => {
                assert(components == 0 || width * height * components > len) by (nonlinear_arith)
                    requires
                        width * height > len,
                ;
                return None;
            },
        };
        let num_samples = match num_pixels.checked_mul(components as usize) {
            Some(n) => n,
            None => {
                assert(width * height * components == num_pixels * components) by (nonlinear_arith)
                    requires
                        num_pixels == width * height,
                ;
                return None;
            },
        };
        assert(width * height * components == num_pixels * components) by (nonlinear_arith)
            requires
                num_pixels == width * height,
        ;
        if num_samples != len || !config.channels.check(components) {
            return None;
        }
        let mut data = data;
        if components == 3 {
            assert((data@.len() / 3) * 4 == num_pixels * 4) by (nonlinear_arith)
                requires
                    data@.len() == num_pixels * 3,
            ;
            data = add_alpha(&data, config.default_alpha);
        }
        if let Channels::BGRA = config.channels {
            assert(data@.len() % 4 == 0) by (nonlinear_arith)
                requires
                    data@.len() == num_pixels * 4,
            ;
            swap_pixels(&mut data);
        }
        assert(data@.len() == num_pixels * config.channels.count());
        Some(Image { width, height, channels: config.channels.channels(), data })
    }

    /// Keeps only sample `channel` of each pixel of a four-sample image.
    pub fn extract_channel(&mut self, channel: u8)
        requires
            old(self).channels == 4,
            channel < 4,
        ensures
            final(self).width == old(self).width,
            final(self).height == old(self).height,
            final(self).channels == 1,
            final(self).data@ == channel_of(old(self).data@, channel),
    {
        let data = pick_channel(&self.data, channel);
        self.channels = 1;
        self.data = data;
    }
}

/// Sample `channel` of each whole four-sample pixel of `px`.
pub fn pick_channel(px: &Vec<u8>, channel: u8) -> (r: Vec<u8>)
    requires
        channel < 4,
    ensures
        r@ == channel_of(px@, channel),
{
    let len = px.len();
    let n = len / 4;
    let mut out: Vec<u8> = Vec::with_capacity(n);
    let mut p: usize = 0;
    while p < n
        invariant
            len == px@.len(),
            n == px@.len() / 4,
            p <= n,
            channel < 4,
            out@ =~= Seq::new(p as nat, |q: int| px@[4 * q + channel]),
        decreases n - p,
    {
        assert(4 * p + 4 <= px@.len()) by (nonlinear_arith)
            requires
                p < n,
                n == px@.len() / 4,
        ;
        out.push(px[4 * p + channel as usize]);
        p = p + 1;
    }
    out
}

} // verus!
