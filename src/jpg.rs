//! JPEG pictures in a fixed layout: the same conversion as [`crate::image`], for
//! callers that only ever read JPEG data.

use crate::image::{converted, channel_of, decode_jpeg, pick_channel, Image};
use vstd::prelude::*;

pub use crate::image::Channels;

verus! {

/// Wanted layout, and the alpha of pixels that have none.
#[derive(Clone, Copy)]
pub struct Config {
    pub channels: Channels,
    pub default_alpha: u8,
}

impl Config {
    /// RGBA output, opaque where the source has no alpha.
    pub fn new() -> (r: Self)
        ensures
            r.channels == Channels::RGBA,
            r.default_alpha == 255,
    {
        Config { channels: Channels::RGBA, default_alpha: 255 }
    }

    pub fn channels(self, channels: Channels) -> (r: Self)
        ensures
            r == (Config { channels, ..self }),
    {
        let mut c = self;
        c.channels = channels;
        c
    }

    pub fn default_alpha(self, default_alpha: u8) -> (r: Self)
        ensures
            r == (Config { default_alpha, ..self }),
    {
        let mut c = self;
        c.default_alpha = default_alpha;
        c
    }

    /// The same request for the general image conversion.
    pub open spec fn as_image_config(self) -> crate::image::Config {
        crate::image::Config {
            format: crate::image::Format::Jpg,
            channels: self.channels,
            default_alpha: self.default_alpha,
        }
    }
}

pub struct JPG {
    pub width: u32,
    pub height: u32,
    pub channels: u8,
    pub data: Vec<u8>,
}

impl JPG {
    /// Brings decoded JPEG samples into the layout `config` asks for; `None` on the same
    /// inputs as [`Image::from_pixels`].
    /// Decodes the JPEG file `raw` and brings its samples into `config`'s layout. `None`
    /// where the decoder fails, or where its output cannot be brought into that layout.
    pub fn decode(raw: &[u8], config: Config) -> (r: Option<JPG>)
        ensures
            r matches Some(img) ==> img.channels == config.channels.count() && img.data@.len()
                == img.width * img.height * img.channels,
    {
        match decode_jpeg(raw) {
            Some((data, width, height, components)) => JPG::from_pixels(data, width as u32, height as u32, components, config),
            None => None,
        }
    }

    pub fn from_pixels(data: Vec<u8>, width: u32, height: u32, components: u8, config: Config) -> (r:
        Option<JPG>)
        ensures
            r is None <==> (width * height * components != data@.len() || !config.channels.accepts(
                components,
            )),
            r matches Some(img) ==> img.width == width && img.height == height && img.channels
                == config.channels.count() && img.data@ == converted(
                data@,
                components,
                config.as_image_config(),
            ),
            r matches Some(img) ==> img.data@.len() == width * height * img.channels,
    {
        let general = crate::image::Config {
            format: crate::image::Format::Jpg,
            channels: config.channels,
            default_alpha: config.default_alpha,
        };
        match Image::from_pixels(data, width, height, components, general) {
            Some(img) => Some(JPG { width: img.width, height: img.height, channels: img.channels, data: img.data }),
            None => None,
        }
    }

    /// Keeps only sample `channel` of each pixel of a four-sample picture.
    pub fn extract_channel(&mut self, channel: u8)
        requires
            old(self).channels == 4,
            channel < 4,
        ensures
            final(self).width == old(self).width,
            final(self).height == old(self).height,
            final(self).channels == 1,
            final(self).data@ == channel_of(old(self).data@, channel),
    {
        let data = pick_channel(&self.data, channel);
        self.channels = 1;
        self.data = data;
    }
}

} // verus!
