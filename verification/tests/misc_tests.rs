use rhubarb::framebuffer::{clip_rect, Color, PixelFormat, Rgba};
use rhubarb::time::Instant;

#[test]
fn color_pixel_values() {
    let c = Color::rgb(0x12, 0x34, 0x56);
    assert_eq!(c.a, 255);
    assert_eq!(c.to_u32(PixelFormat::Bgr), 0x0012_3456);
    assert_eq!(c.to_u32(PixelFormat::Rgb), 0x0056_3412);
    assert_eq!(Color::new(1, 2, 3, 4).a, 4);
}

#[test]
fn rectangles_are_clipped_to_the_screen() {
    assert_eq!(clip_rect(10, 10, 20, 20, 100, 50), (10, 10, 20, 20));
    assert_eq!(clip_rect(-5, -5, 20, 20, 100, 50), (0, 0, 20, 20));
    assert_eq!(clip_rect(90, 40, 20, 20, 100, 50), (90, 40, 10, 10));
    assert_eq!(clip_rect(200, 10, 20, 20, 100, 50), (100, 10, 0, 20));
    assert_eq!(clip_rect(10, 10, -3, 5, 100, 50), (10, 10, 0, 5));
}

#[test]
fn instant_arithmetic() {
    // A clock with a 1 ns period (one million femtoseconds).
    let period = 1_000_000;
    let a = Instant::from_raw(1_000);
    let b = Instant::from_raw(4_000);
    assert_eq!(b.into_raw(), 4_000);
    assert_eq!(b.duration_since(a, period), 3_000);
    assert_eq!(a.duration_since(b, period), 0);
    assert_eq!(a.checked_duration_since(b, period), None);
    assert_eq!(a.add_duration(500, period).into_raw(), 1_500);
    // A clock with a 100 ns period.
    assert_eq!(b.duration_since(a, 100_000_000), 300_000);
    assert_eq!(a.add_duration(250, 100_000_000).into_raw(), 1_002);
    assert_eq!(Instant::from_raw(u64::MAX - 1).add_duration(10, period).into_raw(), u64::MAX);
    assert!(Instant::from_raw(u64::MAX - 1).checked_add_duration(10, period).is_none());
}

#[test]
fn rgba_holds_its_components() {
    let c = Rgba { r: 11u8, g: 22, b: 33, a: 255 };
    let d = c;
    assert_eq!((d.r, d.g, d.b, d.a), (11, 22, 33, 255));
}
