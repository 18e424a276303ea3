use grid_sequencer::sim::ui::image::LayerTarget;
use grid_sequencer::sim::{Bitmap, Color, Image};

#[test]
fn test_image_scale_2() {
    let mut image = Image::new(1, 1);
    image.data[0] = Color::full();
    image.scale(2);

    assert_eq!(image.data.len(), 4);
    assert_eq!(
        &image.to_ascii(),
        "11\
	     11\
	    "
    );

    image.data[0] = Color::empty();
    image.data[1] = Color::full();
    image.data[2] = Color::full();
    image.data[3] = Color::empty();

    assert_eq!(
        &image.to_ascii(),
        "01\
	     10\
	    "
    );

    image.scale(2);
    assert_eq!(image.data.len(), 16);
    assert_eq!(
        &image.to_ascii(),
        "0011\
	     0011\
	     1100\
	     1100\
	    "
    );
}

#[test]
fn test_image_scale_4() {
    let mut image = Image::new(2, 2);
    image.data[0] = Color::full();
    image.data[1] = Color::empty();
    image.data[2] = Color::empty();
    image.data[3] = Color::full();

    assert_eq!(
        &image.to_ascii(),
        "10\
	     01\
	    "
    );

    image.scale(4);

    assert_eq!(image.data.len(), 64);
    assert_eq!(
        &image.to_ascii(),
        "11110000\
	     11110000\
	     11110000\
	     11110000\
	     00001111\
	     00001111\
	     00001111\
	     00001111\
	    "
    );
}

#[test]
fn test_image_from_bitmap() {
    let bitmap = Bitmap::new(8, 2, &[0b10101110, 0b01010111]);

    let image = Image::from_bitmap(&bitmap, Color::full());

    assert_eq!(image.width, 8);
    assert_eq!(image.height, 2);

    assert_eq!(
        &image.to_ascii(),
        "10101110\
	     01010111\
	    "
    );
}

#[test]
fn clear_sets_every_pixel() {
    let mut image = Image::new(3, 2);
    let red = Color::new(255, 0, 0, 255);
    image.clear(red);
    assert_eq!(image.data, vec![red; 6]);
    assert_eq!(image.to_ascii(), "??????");
}

#[test]
fn scale_of_wide_image() {
    let mut image = Image::new(3, 1);
    image.data[1] = Color::full();
    image.scale(2);
    assert_eq!(image.width, 6);
    assert_eq!(image.height, 2);
    assert_eq!(image.to_ascii(), "001100001100");
}

#[test]
fn new_image_is_transparent() {
    let image = Image::new(2, 3);
    assert_eq!(image.data.len(), 6);
    assert_eq!(image.to_ascii(), "000000");
}

#[test]
fn empty_bitmap_has_every_pixel_unset() {
    let b = Bitmap::empty(16, 2);
    assert_eq!((b.width, b.height), (16, 2));
    assert_eq!(b.data, vec![0u8; 4]);
}

#[test]
fn scale_of_image_with_fewer_pixels_than_its_size() {
    let mut image = Image::new(2, 1);
    image.data = vec![Color::full()];
    image.scale(2);
    assert_eq!(image.width, 4);
    assert_eq!(image.height, 2);
    assert_eq!(image.to_ascii(), "11001100");
}

#[test]
fn layered_pixels_land_in_the_target_rows() {
    let target = Image::new(4, 3);
    assert_eq!(target.layer_target(2, 1, 1, 3), LayerTarget::Pixel(10));
    assert_eq!(target.layer_target(2, 1, 1, 0), LayerTarget::Pixel(5));
    assert_eq!(target.layer_target(2, 1, 1, 5), LayerTarget::Outside);
    assert_eq!(target.layer_target(2, -10, 0, 0), LayerTarget::Outside);
    assert_eq!(target.layer_target(-2, 1, 1, 3), LayerTarget::Pixel(2));
    assert_eq!(target.layer_target(0, 1, 1, 3), LayerTarget::Overflow);
    let wide = Image::new(2147483647, 0);
    assert_eq!(wide.layer_target(2, 0, 2, 0), LayerTarget::Overflow);
    assert_eq!(wide.layer_target(2, 0, 0, 0), LayerTarget::Outside);
}
