use mterm::{
    colour, font_from_decoded, load_font_image, Builder, Colour, Error, Font, FontData,
    FontImageFormat,
};

#[test]
fn colour_packs_components_with_full_alpha() {
    assert_eq!(colour(0, 0, 0), 0xFF00_0000);
    assert_eq!(colour(255, 0, 0), 0xFF00_00FF);
    assert_eq!(colour(0, 255, 0), 0xFF00_FF00);
    assert_eq!(colour(0, 0, 255), 0xFFFF_0000);
    assert_eq!(colour(0x12, 0x34, 0x56), 0xFF56_3412);
}

#[test]
fn basic_colours_convert_to_their_packed_values() {
    assert_eq!(u32::from(Colour::Black), colour(0, 0, 0));
    assert_eq!(u32::from(Colour::Red), colour(255, 0, 0));
    assert_eq!(u32::from(Colour::Green), colour(0, 255, 0));
    assert_eq!(u32::from(Colour::Yellow), colour(255, 255, 0));
    assert_eq!(u32::from(Colour::Blue), colour(0, 0, 255));
    assert_eq!(u32::from(Colour::Magenta), colour(255, 0, 255));
    assert_eq!(u32::from(Colour::Cyan), colour(0, 255, 255));
    assert_eq!(u32::from(Colour::White), colour(255, 255, 255));
}

#[test]
fn builder_collects_window_settings() {
    let b = Builder::new()
        .with_inner_size(1024, 768)
        .with_title("terminal")
        .build();
    assert_eq!(b.inner_size, (1024, 768));
    assert_eq!(b.title, "terminal");
    assert!(matches!(b.font, Font::Default));
}

#[test]
fn builder_defaults() {
    let mut b = Builder::new();
    let built = b.build();
    assert_eq!(built.inner_size, (800, 600));
    assert_eq!(built.title, "mterm");
    assert!(matches!(built.font, Font::Default));
}

#[test]
fn builder_takes_a_custom_font() {
    let font = FontData { data: vec![0; 1024], width: 2, height: 2 };
    let b = Builder::new().with_font(font).build();
    match b.font {
        Font::Custom(f) => {
            assert_eq!(f.width, 2);
            assert_eq!(f.height, 2);
            assert_eq!(f.data.len(), 1024);
        },
        Font::Default => panic!("expected the custom font"),
    }
}

#[test]
fn decoded_font_cells_are_a_sixteenth_of_the_image() {
    let data = vec![5u32; 16 * 32];
    let f = font_from_decoded(16, 32, data).unwrap();
    assert_eq!(f.width, 1);
    assert_eq!(f.height, 2);
    assert_eq!(f.data.len(), 16 * 32);
}

#[test]
fn undersized_font_image_is_rejected() {
    assert_eq!(font_from_decoded(15, 16, vec![0; 240]).unwrap_err(), Error::BadFont);
    assert_eq!(font_from_decoded(16, 15, vec![0; 240]).unwrap_err(), Error::BadFont);
}

#[test]
fn font_loads_from_png_bytes() {
    let img = image::RgbaImage::from_fn(32, 32, |x, y| {
        image::Rgba([x as u8, y as u8, 7, 255])
    });
    let mut bytes: Vec<u8> = Vec::new();
    img.write_to(
        &mut std::io::Cursor::new(&mut bytes),
        image::ImageOutputFormat::Png,
    )
    .unwrap();
    let font = load_font_image(&bytes, FontImageFormat::Png).unwrap();
    assert_eq!(font.width, 2);
    assert_eq!(font.height, 2);
    assert_eq!(font.data.len(), 32 * 32);
    // Pixels come back packed little-endian: red in the lowest byte.
    assert_eq!(font.data[0], 0xFF07_0000);
    assert_eq!(font.data[1], 0xFF07_0001);
    assert_eq!(font.data[32], 0xFF07_0100);
}

#[test]
fn garbage_bytes_are_a_bad_font() {
    let r = load_font_image(&[1, 2, 3, 4], FontImageFormat::Png);
    assert_eq!(r.unwrap_err(), Error::BadFont);
}

#[test]
fn font_loads_from_bmp_bytes() {
    let img = image::RgbaImage::from_fn(16, 16, |x, _| image::Rgba([x as u8, 0, 0, 255]));
    let mut bytes: Vec<u8> = Vec::new();
    img.write_to(
        &mut std::io::Cursor::new(&mut bytes),
        image::ImageOutputFormat::Bmp,
    )
    .unwrap();
    let font = load_font_image(&bytes, FontImageFormat::Bmp).unwrap();
    assert_eq!(font.width, 1);
    assert_eq!(font.height, 1);
    assert_eq!(font.data[3], 0xFF00_0003);
}

#[test]
fn decoding_keys_on_the_format() {
    // Valid PNG bytes handed to the BMP decoder are not a font.
    let img = image::RgbaImage::from_fn(16, 16, |_, _| image::Rgba([1, 2, 3, 255]));
    let mut bytes: Vec<u8> = Vec::new();
    img.write_to(
        &mut std::io::Cursor::new(&mut bytes),
        image::ImageOutputFormat::Png,
    )
    .unwrap();
    let r = load_font_image(&bytes, FontImageFormat::Bmp);
    assert_eq!(r.unwrap_err(), Error::BadFont);
}
