use gru::image::{Channels, Config, Format, Image};
use gru::jpg::{self, JPG};

#[test]
fn rgb_widened_with_default_alpha() {
    let data = vec![1, 2, 3, 4, 5, 6];
    let config = Config::new(Format::Png).default_alpha(9);
    let img = Image::from_pixels(data, 2, 1, 3, config).unwrap();
    assert_eq!(img.width, 2);
    assert_eq!(img.height, 1);
    assert_eq!(img.channels, 4);
    assert_eq!(img.data, vec![1, 2, 3, 9, 4, 5, 6, 9]);
}

#[test]
fn rgb_defaults_to_opaque() {
    let img = Image::from_pixels(vec![7, 8, 9], 1, 1, 3, Config::new(Format::Jpg)).unwrap();
    assert_eq!(img.data, vec![7, 8, 9, 255]);
}

#[test]
fn bgra_swaps_red_and_blue() {
    let data = vec![1, 2, 3, 4, 5, 6, 7, 8];
    let config = Config::new(Format::Png).channels(Channels::BGRA);
    let img = Image::from_pixels(data, 1, 2, 4, config).unwrap();
    assert_eq!(img.data, vec![3, 2, 1, 4, 7, 6, 5, 8]);
    let img = Image::from_pixels(vec![1, 2, 3], 1, 1, 3, config.default_alpha(0)).unwrap();
    assert_eq!(img.data, vec![3, 2, 1, 0]);
}

#[test]
fn grey_kept_as_is() {
    let config = Config::new(Format::Png).channels(Channels::L);
    let img = Image::from_pixels(vec![5, 6, 7, 8], 2, 2, 1, config).unwrap();
    assert_eq!(img.channels, 1);
    assert_eq!(img.data, vec![5, 6, 7, 8]);
}

#[test]
fn layout_that_cannot_be_had_is_refused() {
    let grey = Config::new(Format::Png).channels(Channels::L);
    assert!(Image::from_pixels(vec![1, 2, 3], 1, 1, 3, grey).is_none());
    assert!(Image::from_pixels(vec![1, 2], 1, 1, 2, Config::new(Format::Png)).is_none());
}

#[test]
fn wrong_sample_count_is_refused() {
    assert!(Image::from_pixels(vec![1, 2, 3, 4, 5], 1, 1, 4, Config::new(Format::Png)).is_none());
    assert!(Image::from_pixels(vec![], 1, 1, 4, Config::new(Format::Png)).is_none());
    assert!(Image::from_pixels(vec![], 0, 5, 4, Config::new(Format::Png)).is_some());
}

#[test]
fn extract_channel_keeps_one_sample_per_pixel() {
    let mut img = Image { width: 2, height: 1, channels: 4, data: vec![1, 2, 3, 4, 5, 6, 7, 8] };
    img.extract_channel(3);
    assert_eq!(img.channels, 1);
    assert_eq!(img.data, vec![4, 8]);
    let mut img = Image { width: 2, height: 1, channels: 4, data: vec![1, 2, 3, 4, 5, 6, 7, 8] };
    img.extract_channel(0);
    assert_eq!(img.data, vec![1, 5]);
}

#[test]
fn channel_counts() {
    assert_eq!(Channels::L.channels(), 1);
    assert_eq!(Channels::RGBA.channels(), 4);
    assert_eq!(Channels::BGRA.channels(), 4);
    assert!(Channels::L.check(1));
    assert!(!Channels::L.check(3));
    assert!(Channels::RGBA.check(3));
    assert!(Channels::BGRA.check(4));
    assert!(!Channels::RGBA.check(1));
}

#[test]
fn jpg_picture_conversion_and_extraction() {
    let config = jpg::Config::new().channels(Channels::BGRA).default_alpha(1);
    let mut pic = JPG::from_pixels(vec![10, 20, 30, 40, 50, 60], 2, 1, 3, config).unwrap();
    assert_eq!(pic.data, vec![30, 20, 10, 1, 60, 50, 40, 1]);
    pic.extract_channel(2);
    assert_eq!(pic.channels, 1);
    assert_eq!(pic.data, vec![10, 40]);
    assert!(JPG::from_pixels(vec![1], 1, 1, 1, jpg::Config::new()).is_none());
}

const RGB_2X1_PNG: [u8; 72] = [
    137, 80, 78, 71, 13, 10, 26, 10, 0, 0, 0, 13, 73, 72, 68, 82, 0, 0, 0, 2, 0, 0, 0, 1, 8, 2, 0,
    0, 0, 123, 64, 232, 221, 0, 0, 0, 15, 73, 68, 65, 84, 120, 156, 99, 224, 18, 145, 211, 48, 178,
    1, 0, 2, 55, 0, 211, 91, 86, 81, 216, 0, 0, 0, 0, 73, 69, 78, 68, 174, 66, 96, 130,
];

const GREY_2X1_PNG: [u8; 68] = [
    137, 80, 78, 71, 13, 10, 26, 10, 0, 0, 0, 13, 73, 72, 68, 82, 0, 0, 0, 2, 0, 0, 0, 1, 8, 0, 0,
    0, 0, 209, 73, 32, 86, 0, 0, 0, 11, 73, 68, 65, 84, 120, 156, 99, 96, 231, 4, 0, 0, 26, 0, 17,
    96, 205, 36, 146, 0, 0, 0, 0, 73, 69, 78, 68, 174, 66, 96, 130,
];

#[test]
fn decodes_png_into_rgba_and_bgra() {
    let img = Image::decode(&RGB_2X1_PNG, Config::new(Format::Png)).unwrap();
    assert_eq!((img.width, img.height, img.channels), (2, 1, 4));
    assert_eq!(img.data, vec![10, 20, 30, 255, 40, 50, 60, 255]);
    let config = Config::new(Format::Png).channels(Channels::BGRA).default_alpha(5);
    let img = Image::decode(&RGB_2X1_PNG, config).unwrap();
    assert_eq!(img.data, vec![30, 20, 10, 5, 60, 50, 40, 5]);
}

#[test]
fn decodes_grey_png() {
    let config = Config::new(Format::Png).channels(Channels::L);
    let img = Image::decode(&GREY_2X1_PNG, config).unwrap();
    assert_eq!((img.width, img.height, img.channels), (2, 1, 1));
    assert_eq!(img.data, vec![7, 9]);
    // Grey samples cannot be brought into a colour layout.
    assert!(Image::decode(&GREY_2X1_PNG, Config::new(Format::Png)).is_none());
}

#[test]
fn undecodable_bytes_give_none() {
    let junk = [1u8, 2, 3, 4, 5, 6, 7, 8];
    assert!(Image::decode(&junk, Config::new(Format::Png)).is_none());
    assert!(Image::decode(&junk, Config::new(Format::Jpg)).is_none());
    assert!(JPG::decode(&junk, jpg::Config::new()).is_none());
    // A PNG is no JPEG.
    assert!(Image::decode(&RGB_2X1_PNG, Config::new(Format::Jpg)).is_none());
}
