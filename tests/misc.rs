use fontapi::mem::copy;
use fontapi::tile_img::{TileImage, TileImageError};
use fontapi::video::{brightness_value, fade_in, fade_out};

#[test]
fn fades_step_through_all_levels() {
    assert_eq!(fade_in(), (0..=16).rev().collect::<Vec<i8>>());
    assert_eq!(fade_out(), (0..=16).collect::<Vec<i8>>());
}

#[test]
fn brightness_register_values() {
    assert_eq!(brightness_value(16), 0x4010);
    assert_eq!(brightness_value(0), 0x4000);
    assert_eq!(brightness_value(5), 0x4005);
    assert_eq!(brightness_value(40), 0x4010);
    assert_eq!(brightness_value(-3), 0x8003);
    assert_eq!(brightness_value(-128), 0x8010);
}

#[test]
fn copy_into_prefix() {
    let mut dst = vec![0u8; 5];
    copy(&[1, 2, 3], &mut dst);
    assert_eq!(dst, vec![1, 2, 3, 0, 0]);
}

#[test]
fn tile_image_builders() {
    let image = TileImage::new()
        .with_4bpp()
        .with_first_color_pos(3, 4)
        .with_palette_reference()
        .with_default_color_index(7)
        .with_tileset("a.bin", 16)
        .with_tilemap("m1.bin", 4, 2)
        .with_tilemap("m2.bin", 6, 1)
        .with_output("out.png")
        .with_palette("pal.bin");
    assert!(image.is_4bpp);
    assert_eq!(image.first_color_pos, (3, 4));
    assert!(image.palette_reference);
    assert_eq!(image.default_color_index, Some(7));
    assert_eq!(image.tileset.len(), 1);
    assert_eq!(image.tileset[0].input_file, "a.bin");
    assert_eq!(image.tileset[0].output_file, "a.bin");
    assert_eq!(image.tileset[0].base_tile, 16);
    assert_eq!(image.tilemap[1].width, 6);
    assert_eq!(image.output, "out.png");
    assert_eq!(image.palette.as_deref(), Some("pal.bin"));
    assert_eq!(image.get_image_size(), (48, 24));
    assert_eq!(image.verify_tilemap_tileset_len(), Ok(()));
    assert!(!image.with_8bpp().is_4bpp);
}

#[test]
fn tile_image_count_mismatch() {
    let image = TileImage::new()
        .with_tileset("a.bin", 0)
        .with_tileset("b.bin", 0)
        .with_tilemap("m1.bin", 1, 1)
        .with_tilemap("m2.bin", 1, 1)
        .with_tilemap("m3.bin", 1, 1);
    assert_eq!(
        image.verify_tilemap_tileset_len(),
        Err(TileImageError::CountMismatch { tilemaps: 3, tilesets: 2 })
    );
    let empty = TileImage::new();
    assert_eq!(empty.get_image_size(), (0, 0));
    assert_eq!(empty.verify_tilemap_tileset_len(), Ok(()));
}
