use riptar::flower::{FlowerStyle, FLOWER_VARIANT_COUNT};
use riptar::render::{
    generate_flower_animation_frames, generate_flower_image, generate_flower_png,
    FLOWER_ANIMATION_FRAME_COUNT,
};

#[test]
fn deterministic_for_same_seed_and_variant() {
    let a = generate_flower_png("user-1", FlowerStyle::FlowerOnly, None, Some(2), false, false, false).unwrap();
    let b = generate_flower_png("user-1", FlowerStyle::FlowerOnly, None, Some(2), false, false, false).unwrap();
    assert_eq!(a, b);
}

#[test]
fn different_variants_produce_different_images() {
    let a = generate_flower_png("user-1", FlowerStyle::FlowerOnly, None, Some(1), false, false, false).unwrap();
    let b = generate_flower_png("user-1", FlowerStyle::FlowerOnly, None, Some(2), false, false, false).unwrap();
    assert_ne!(a, b);
}

#[test]
fn variants_wrap_correctly() {
    assert_eq!(
        generate_flower_png("user-1", FlowerStyle::FlowerOnly, None, Some(0), false, false, false).unwrap(),
        generate_flower_png(
            "user-1",
            FlowerStyle::FlowerOnly,
            None,
            Some(FLOWER_VARIANT_COUNT as u32),
            false,
            false,
            false,
        )
        .unwrap(),
    );
}

#[test]
fn background_is_seed_driven_not_variant_driven() {
    let a = generate_flower_image("user-1", FlowerStyle::FlowerOnly, None, Some(0), false, false, false);
    let b = generate_flower_image("user-1", FlowerStyle::FlowerOnly, None, Some(3), false, false, false);
    assert_eq!(a.background, b.background);
}

#[test]
fn output_is_32_by_32_by_default() {
    let generated =
        generate_flower_image("user-1", FlowerStyle::FlowerWithStem, None, None, false, false, false);
    assert_eq!(generated.image.dimensions(), (32, 32));
}

#[test]
fn output_respects_custom_size() {
    let generated = generate_flower_image("user-1", FlowerStyle::FlowerOnly, Some(64), None, false, false, false);
    assert_eq!(generated.image.dimensions(), (64, 64));
}

#[test]
fn output_is_a_png() {
    let bytes = generate_flower_png("user-1", FlowerStyle::FlowerOnly, None, None, false, false, false).unwrap();
    assert_eq!(&bytes[..8], b"\x89PNG\r\n\x1a\n");
}

#[test]
fn all_variants_generate_within_canvas() {
    for variant in 0..FLOWER_VARIANT_COUNT {
        for style in [FlowerStyle::FlowerOnly, FlowerStyle::FlowerWithStem] {
            let generated =
                generate_flower_image("user-1", style, None, Some(variant as u32), false, false, false);
            assert_eq!(generated.image.dimensions(), (32, 32));
        }
    }
}

#[test]
fn night_produces_different_colors_than_day() {
    let day = generate_flower_png("user-1", FlowerStyle::FlowerOnly, None, None, false, false, false).unwrap();
    let night = generate_flower_png("user-1", FlowerStyle::FlowerOnly, None, None, true, false, false).unwrap();
    assert_ne!(day, night);
}

#[test]
fn night_is_deterministic() {
    let a = generate_flower_png("user-1", FlowerStyle::FlowerWithStem, None, Some(1), true, false, false).unwrap();
    let b = generate_flower_png("user-1", FlowerStyle::FlowerWithStem, None, Some(1), true, false, false).unwrap();
    assert_eq!(a, b);
}

#[test]
fn hdr_produces_different_colors_than_default() {
    let normal = generate_flower_png("user-1", FlowerStyle::FlowerOnly, None, None, false, false, false).unwrap();
    let hdr = generate_flower_png("user-1", FlowerStyle::FlowerOnly, None, None, false, false, true).unwrap();
    assert_ne!(normal, hdr);
}

#[test]
fn hdr_is_deterministic() {
    let a = generate_flower_png("user-1", FlowerStyle::FlowerWithStem, None, Some(1), false, false, true).unwrap();
    let b = generate_flower_png("user-1", FlowerStyle::FlowerWithStem, None, Some(1), false, false, true).unwrap();
    assert_eq!(a, b);
}

#[test]
fn transparent_background_has_zero_alpha() {
    let generated =
        generate_flower_image("user-1", FlowerStyle::FlowerWithStem, None, None, false, true, false);
    assert_eq!(generated.image.get_pixel(0, 0)[3], 0);
    assert!(generated.image.pixels().iter().any(|pixel| pixel[3] == 255));
}

#[test]
fn animation_has_expected_frame_count_and_size() {
    let frames = generate_flower_animation_frames(
        "user-1",
        FlowerStyle::FlowerWithStem,
        Some(64),
        Some(2),
        false,
        false,
        false,
    );

    assert_eq!(frames.len(), FLOWER_ANIMATION_FRAME_COUNT);
    assert!(frames.iter().all(|frame| frame.image.dimensions() == (64, 64)));
}

#[test]
fn animation_is_deterministic() {
    let a = generate_flower_animation_frames(
        "user-1",
        FlowerStyle::FlowerWithStem,
        None,
        Some(2),
        false,
        false,
        false,
    );
    let b = generate_flower_animation_frames(
        "user-1",
        FlowerStyle::FlowerWithStem,
        None,
        Some(2),
        false,
        false,
        false,
    );

    assert_eq!(a.len(), b.len());
    for (left, right) in a.iter().zip(&b) {
        assert_eq!(left.image, right.image);
    }
}
