use pathtracer::display::{pack_rgba, quantize, scan_rows, Rgb, LIMIT_BITS, OPAQUE};
use pathtracer::scalar::Scalar;

fn s(x: f32) -> Scalar {
    Scalar::from_bits(x.to_bits())
}

fn by_hardware(x: f32) -> u8 {
    ((x.clamp(0.0, 0.999) * 256.0) as i32) as u8
}

#[test]
fn rows_are_scanned_from_the_highest_down() {
    assert_eq!(scan_rows(3), vec![2, 1, 0]);
    assert_eq!(scan_rows(1), vec![0]);
    let rows = scan_rows(160);
    assert_eq!(rows.len(), 160);
    assert_eq!(rows[0], 159);
    assert_eq!(rows[159], 0);
}

#[test]
fn image_without_height_has_no_rows() {
    assert!(scan_rows(0).is_empty());
    assert!(scan_rows(-4).is_empty());
}

#[test]
fn pixels_are_packed_four_bytes_each() {
    let pixels = vec![Rgb { r: 1, g: 2, b: 3 }, Rgb { r: 250, g: 0, b: 128 }];
    assert_eq!(pack_rgba(&pixels), vec![1, 2, 3, 255, 250, 0, 128, 255]);
    assert!(pack_rgba(&Vec::new()).is_empty());
}

#[test]
fn every_pixel_is_opaque() {
    assert_eq!(OPAQUE, 255);
    let pixels = vec![Rgb { r: 0, g: 0, b: 0 }; 4];
    let bytes = pack_rgba(&pixels);
    assert_eq!(bytes.len(), 16);
    for i in 0..4 {
        assert_eq!(bytes[4 * i + 3], 255);
    }
}

#[test]
fn limit_is_the_pattern_it_names() {
    assert_eq!(LIMIT_BITS, 0.999f32.to_bits());
}

#[test]
fn channel_bytes() {
    assert_eq!(quantize(s(0.0)), 0);
    assert_eq!(quantize(s(-0.0)), 0);
    assert_eq!(quantize(s(0.25)), 64);
    assert_eq!(quantize(s(0.5)), 128);
    assert_eq!(quantize(s(0.75)), 192);
    assert_eq!(quantize(s(0.003)), 0);
    assert_eq!(quantize(s(0.00390625)), 1);
    assert_eq!(quantize(s(0.998)), 255);
    assert_eq!(quantize(s(0.999)), 255);
}

#[test]
fn channel_bytes_are_clamped() {
    assert_eq!(quantize(s(1.0)), 255);
    assert_eq!(quantize(s(17.0)), 255);
    assert_eq!(quantize(s(f32::INFINITY)), 255);
    assert_eq!(quantize(s(-0.5)), 0);
    assert_eq!(quantize(s(f32::NEG_INFINITY)), 0);
}

#[test]
fn channel_that_is_no_number_is_dark() {
    assert_eq!(quantize(s(f32::NAN)), 0);
    assert_eq!(quantize(s(-f32::NAN)), 0);
    assert_eq!(quantize(Scalar::from_bits(0x7f80_0001)), 0);
}

#[test]
fn quantize_agrees_with_the_hardware_between_zero_and_one() {
    let mut bits: u32 = 0;
    while bits <= 0x3f80_0000 {
        let x = f32::from_bits(bits);
        assert_eq!(quantize(Scalar::from_bits(bits)), by_hardware(x), "{:#x}", bits);
        bits += 4099;
    }
}

#[test]
fn quantize_agrees_with_the_hardware_at_every_step() {
    for byte in 1..=255u32 {
        let edge = byte as f32 / 256.0;
        let below = f32::from_bits(edge.to_bits() - 1);
        let above = f32::from_bits(edge.to_bits() + 1);
        for x in [below, edge, above] {
            assert_eq!(quantize(s(x)), by_hardware(x), "{}", x);
        }
        assert_eq!(quantize(s(edge)) as u32, byte);
        assert_eq!(quantize(s(below)) as u32, byte - 1);
    }
}

#[test]
fn quantize_agrees_with_the_hardware_across_the_patterns() {
    let mut bits: u32 = 12345;
    for _ in 0..300_000 {
        let x = f32::from_bits(bits);
        assert_eq!(quantize(Scalar::from_bits(bits)), by_hardware(x), "{:#x}", bits);
        bits = bits.wrapping_mul(1_664_525).wrapping_add(1_013_904_223);
    }
}
