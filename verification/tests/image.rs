//! Pixel buffers, colours and their averaging.
use raytracer::color::Color;
use raytracer::image::{Image, ImageError};
use raytracer::scalar::ONE;

/// The scalar that stands for `x`.
fn key(x: f64) -> i64 {
    assert!(!x.is_nan());
    let bits = (if x == 0.0 { 0.0 } else { x }).to_bits() as i64;
    if bits < 0 {
        bits ^ i64::MAX
    } else {
        bits
    }
}

fn color(r: f64, g: f64, b: f64) -> Color {
    Color::new(key(r), key(g), key(b))
}

fn random_color() -> Color {
    color(rand::random(), rand::random(), rand::random())
}

fn mean(pixels: Vec<Color>) -> Color {
    let n = pixels.len() as i64;
    Color::new(
        pixels.iter().map(|c| c.r()).sum::<i64>() / n,
        pixels.iter().map(|c| c.g()).sum::<i64>() / n,
        pixels.iter().map(|c| c.b()).sum::<i64>() / n,
    )
}

#[test]
fn clamping() {
    let mut c1 = color(1.5, -0.7, 0.4);

    assert_eq!(c1.clamped(), color(1.0, 0.0, 0.4));
    c1.clamp();
    assert_eq!(c1, color(1.0, 0.0, 0.4));
}

#[test]
fn clamping_twice_changes_nothing() {
    for c in [
        color(1.5, -0.7, 0.4),
        color(0.0, 1.0, 0.5),
        color(-0.0, 1.0000000000000002, f64::INFINITY),
        color(f64::NEG_INFINITY, f64::MIN_POSITIVE, -f64::MIN_POSITIVE),
        random_color(),
    ] {
        let once = c.clamped();
        assert_eq!(once.clamped(), once);
        for k in [once.r(), once.g(), once.b()] {
            assert!(key(0.0) <= k && k <= key(1.0));
        }
    }
}

#[test]
fn scalars_order_as_the_numbers_they_stand_for() {
    let numbers = [
        f64::NEG_INFINITY,
        -1.0e300,
        -1.5,
        -1.0,
        -0.001,
        -f64::MIN_POSITIVE,
        0.0,
        f64::MIN_POSITIVE,
        0.001,
        0.5,
        1.0,
        2.0,
        1.0e300,
        f64::INFINITY,
    ];
    for window in numbers.windows(2) {
        assert!(key(window[0]) < key(window[1]));
    }
    assert_eq!(key(0.0), raytracer::scalar::ZERO);
    assert_eq!(key(-0.0), raytracer::scalar::ZERO);
    assert_eq!(key(1.0), ONE);
    assert_eq!(key(f64::INFINITY), raytracer::scalar::INFINITY);
    assert_eq!(key(f64::EPSILON), raytracer::scalar::EPSILON);
    assert_eq!(key(0.001), raytracer::camera::BIAS);
    for x in numbers {
        assert_eq!(raytracer::scalar::negate(key(x)), key(-x));
        assert_eq!(raytracer::scalar::abs(key(x)), key(x.abs()));
        for y in numbers {
            assert_eq!(raytracer::scalar::min(key(x), key(y)), key(x.min(y)));
            assert_eq!(raytracer::scalar::max(key(x), key(y)), key(x.max(y)));
            assert_eq!(raytracer::scalar::clamp(key(x), key(0.0), key(1.0)), key(x.clamp(0.0, 1.0)));
        }
    }
}

#[test]
fn named_colors() {
    assert_eq!(Color::black(), color(0.0, 0.0, 0.0));
    assert_eq!(Color::white(), color(1.0, 1.0, 1.0));
    assert_eq!(Color::red(), color(1.0, 0.0, 0.0));
    assert_eq!(Color::green(), color(0.0, 1.0, 0.0));
    assert_eq!(Color::blue(), color(0.0, 0.0, 1.0));
    assert_eq!(Color::default(), Color::black());
    let c = color(0.1, 0.2, 0.3);
    assert_eq!((c.r(), c.g(), c.b()), (key(0.1), key(0.2), key(0.3)));
}

#[test]
fn create_with_aspect_ratio() {
    let image = Image::with_aspect_ratio(10, (16, 9), Color::black());

    assert_eq!(image.width(), 10);
    assert_eq!(image.height(), 5);
    assert_eq!(image.get_pixel(4, 0), Color::black());
}

#[test]
fn the_aspect_ratio_gives_the_height_rounded_down() {
    let black = Color::black();
    assert_eq!(Image::with_aspect_ratio(512, (1, 1), black).resolution(), (512, 512));
    assert_eq!(Image::with_aspect_ratio(1920, (16, 9), black).resolution(), (1920, 1080));
    assert_eq!(Image::with_aspect_ratio(1919, (16, 9), black).resolution(), (1919, 1079));
    assert_eq!(Image::with_aspect_ratio(100, (3, 1), black).resolution(), (100, 33));
    assert_eq!(Image::with_aspect_ratio(7, (1, 3), black).resolution(), (7, 21));
    // a height or a width of zero is raised to one
    assert_eq!(Image::with_aspect_ratio(1, (2, 1), black).resolution(), (1, 1));
    assert_eq!(Image::with_aspect_ratio(0, (16, 9), black).resolution(), (1, 1));
    assert_eq!(Image::with_aspect_ratio(5, (u32::MAX, 1), black).resolution(), (5, 1));
    for width in 1..200u32 {
        let height = (f64::from(width) / (16.0 / 9.0)) as u32;
        assert_eq!(
            Image::with_aspect_ratio(width, (16, 9), black).resolution(),
            (width, height.max(1))
        );
    }
}

#[test]
fn create_with_dimensions() {
    let color = random_color();
    let image = Image::with_dimensions(10, 8, color);

    assert_eq!(image.width(), 10);
    assert_eq!(image.height(), 8);
    assert_eq!(image.get_pixel(3, 5), color);
}

#[test]
fn pixels() {
    let color = random_color();
    let mut image = Image::with_dimensions(3, 3, Color::black());

    assert_eq!(image.get_pixel(1, 1), Color::black());
    image.set_pixel(1, 1, color);
    assert_eq!(image.get_pixel(1, 1), color);
}

#[test]
fn an_image_has_at_least_one_pixel() {
    let image = Image::with_dimensions(0, 0, Color::white());
    assert_eq!(image.resolution(), (1, 1));
    assert_eq!(image.pixel_count(), 1);
    assert_eq!(image.get_pixel(0, 0), Color::white());
    assert_eq!(Image::with_dimensions(0, 7, Color::white()).resolution(), (1, 7));
    assert_eq!(Image::with_dimensions(7, 0, Color::white()).pixel_count(), 7);
}

#[test]
fn setting_a_pixel_leaves_the_others() {
    let mut image = Image::with_dimensions(4, 3, Color::black());
    image.set_pixel(3, 0, Color::red());
    image.set_pixel(0, 1, Color::green());
    image.set_pixel(2, 2, Color::blue());
    for y in 0..3 {
        for x in 0..4 {
            let expected = match (x, y) {
                (3, 0) => Color::red(),
                (0, 1) => Color::green(),
                (2, 2) => Color::blue(),
                _ => Color::black(),
            };
            assert_eq!(image.get_pixel(x, y), expected);
        }
    }
}

#[test]
fn averaging_no_image_fails() {
    assert_eq!(Image::average(&Vec::new(), mean).unwrap_err(), ImageError::AveragingZeroImages);
}

#[test]
fn averaging_images_of_other_sizes_fails() {
    let images = vec![
        Image::with_dimensions(2, 2, Color::black()),
        Image::with_dimensions(2, 2, Color::black()),
        Image::with_dimensions(4, 2, Color::black()),
    ];
    assert_eq!(Image::average(&images, mean).unwrap_err(), ImageError::DimensionsMismatch);
    let images =
        vec![Image::with_dimensions(1, 1, Color::black()), Image::with_dimensions(2, 2, Color::black())];
    assert_eq!(Image::average(&images, mean).unwrap_err(), ImageError::DimensionsMismatch);
}

#[test]
fn averaging_goes_by_width_and_height() {
    // the same number of pixels, in another shape
    let images =
        vec![Image::with_dimensions(2, 3, Color::black()), Image::with_dimensions(3, 2, Color::black())];
    assert_eq!(Image::average(&images, mean).unwrap_err(), ImageError::DimensionsMismatch);
    let images = vec![
        Image::with_dimensions(2, 3, Color::black()),
        Image::with_dimensions(2, 3, Color::black()),
        Image::with_dimensions(6, 1, Color::black()),
    ];
    assert_eq!(Image::average(&images, mean).unwrap_err(), ImageError::DimensionsMismatch);
    let images =
        vec![Image::with_dimensions(2, 3, Color::black()), Image::with_dimensions(2, 3, Color::white())];
    assert_eq!(Image::average(&images, mean).unwrap().resolution(), (2, 3));
}

#[test]
fn averaging_copies_of_an_image_gives_the_image() {
    let mut image = Image::with_dimensions(3, 2, Color::black());
    for y in 0..2 {
        for x in 0..3 {
            image.set_pixel(x, y, Color::new(i64::from(x), i64::from(y) * 10, 7));
        }
    }
    for k in 1..5 {
        let copies = vec![image.clone(); k];
        let average = Image::average(&copies, mean).unwrap();
        assert_eq!(average.resolution(), image.resolution());
        for y in 0..2 {
            for x in 0..3 {
                assert_eq!(average.get_pixel(x, y), image.get_pixel(x, y));
            }
        }
    }
}

#[test]
fn averaging_hands_each_place_to_the_mean() {
    let mut first = Image::with_dimensions(2, 1, Color::new(2, 4, 6));
    first.set_pixel(1, 0, Color::new(10, 10, 10));
    let second = Image::with_dimensions(2, 1, Color::new(4, 8, 0));
    let image = Image::average(&vec![first, second], mean).unwrap();
    assert_eq!(image.get_pixel(0, 0), Color::new(3, 6, 3));
    assert_eq!(image.get_pixel(1, 0), Color::new(7, 9, 5));
    // the pixels of a place come in the order of the images
    let first_of = |pixels: Vec<Color>| pixels[0];
    let images = vec![
        Image::with_dimensions(1, 1, Color::red()),
        Image::with_dimensions(1, 1, Color::blue()),
    ];
    assert_eq!(Image::average(&images, first_of).unwrap().get_pixel(0, 0), Color::red());
}
