use rolly_polly::fixed::ONE;
use rolly_polly::floor::Material;
use rolly_polly::geometry::{Rect, Vec2};
use rolly_polly::light::{check_all_circles, load_light, shape_to_light};
use rolly_polly::svg::{parse_fill_color, CircleShape, PathShape, RectShape, SvgItem, SvgShape};
use rolly_polly::thing::{
    collider_bounds, is_respawn, thing_info_to_name, thing_material, thing_params, thing_texture,
    AreaOfEffect, BasicThingParams, ColliderRepr, Light, LightRepr, ThingInfo, ThingInfoShapeSize,
    ThingName, UsizeShapeSize,
};

fn rect_of(width: i64, height: i64, color: u32) -> ThingInfo {
    ThingInfo::new_rect(Vec2::new(0, 0), 0, Vec2::new(width, height), color)
}

#[test]
fn materials_by_colour() {
    assert_eq!(Material::try_from_hex_color(0x50AA59), Some(Material::Grass));
    assert_eq!(Material::try_from_hex_color(0x1E7EB4), Some(Material::Water));
    assert_eq!(Material::try_from_hex_color(0x495380), Some(Material::Stone));
    assert_eq!(Material::try_from_hex_color(0x63403D), Some(Material::Mud));
    assert_eq!(Material::try_from_hex_color(0x63403E), None);
    assert_eq!(Material::try_from_hex_color(0), None);
    assert_eq!(Material::from_hex_color(0x50AA59), Material::Grass);
    assert_eq!(Material::from_hex_color(0x1E7EB4), Material::Water);
    assert_eq!(Material::from_hex_color(0x495380), Material::Stone);
    assert_eq!(Material::from_hex_color(0x63403D), Material::Mud);
}

#[test]
fn all_but_water_is_solid() {
    assert!(Material::Grass.rigid());
    assert!(Material::Stone.rigid());
    assert!(Material::Mud.rigid());
    assert!(!Material::Water.rigid());
}

#[test]
fn sizes_in_pixels() {
    let rect = ThingInfoShapeSize::Rect(Vec2::new(333_333, 83_333));
    assert_eq!(UsizeShapeSize::from_thing_info(&rect), UsizeShapeSize::Rect(200, 50));
    let circle = ThingInfoShapeSize::Circle(ONE);
    assert_eq!(UsizeShapeSize::from_thing_info(&circle), UsizeShapeSize::Circle(600));
    let negative = ThingInfoShapeSize::Rect(Vec2::new(-ONE, 0));
    assert_eq!(UsizeShapeSize::from_thing_info(&negative), UsizeShapeSize::Rect(0, 0));
}

#[test]
fn a_stone_is_200_pixels_wide() {
    assert_eq!(thing_info_to_name(rect_of(333_333, 50_000, 0x495380)), Some(ThingName::Stone));
    assert_eq!(thing_info_to_name(rect_of(333_333, 999_999, 0x495380)), Some(ThingName::Stone));
    // 199.5 pixels round up to 200, 200.5 pixels to 201
    assert_eq!(thing_info_to_name(rect_of(332_500, 50_000, 0x495380)), Some(ThingName::Stone));
    assert_eq!(thing_info_to_name(rect_of(332_499, 50_000, 0x495380)), Some(ThingName::Spike));
    assert_eq!(thing_info_to_name(rect_of(334_167, 50_000, 0x495380)), Some(ThingName::Spike));
}

#[test]
fn other_stone_coloured_shapes_are_spikes() {
    assert_eq!(thing_info_to_name(rect_of(100_000, 333_333, 0x495380)), Some(ThingName::Spike));
    let circle = ThingInfo::new_circle(Vec2::new(0, 0), 0, 333_333, 0x495380);
    assert_eq!(thing_info_to_name(circle), Some(ThingName::Spike));
}

#[test]
fn checkpoints_by_colour() {
    assert_eq!(thing_info_to_name(rect_of(1, 1, 0xCCCFAA)), Some(ThingName::RespawnGrass));
    assert_eq!(thing_info_to_name(rect_of(1, 1, 0x938260)), Some(ThingName::RespawnMud));
    let circle = ThingInfo::new_circle(Vec2::new(0, 0), 0, 5, 0xCCCFAA);
    assert_eq!(thing_info_to_name(circle), Some(ThingName::RespawnGrass));
}

#[test]
fn other_colours_stand_for_nothing() {
    assert_eq!(thing_info_to_name(rect_of(333_333, 1, 0x00FF00)), None);
    assert_eq!(thing_info_to_name(rect_of(333_333, 1, 0x50AA59)), None);
    assert_eq!(thing_info_to_name(rect_of(333_333, 1, 0)), None);
}

#[test]
fn things_of_shapes() {
    let rect = SvgShape::Rect(RectShape { pos: Vec2::new(1, 2), dims: Vec2::new(3, 4), rotate: 5 });
    assert_eq!(
        ThingInfo::of_shape(&rect, 7),
        Some(ThingInfo::new_rect(Vec2::new(1, 2), 5, Vec2::new(3, 4), 7))
    );
    let circle = SvgShape::Circle(CircleShape { pos: Vec2::new(1, 2), r: 3, rotate: 4 });
    assert_eq!(
        ThingInfo::of_shape(&circle, 7),
        Some(ThingInfo::new_circle(Vec2::new(1, 2), 4, 3, 7))
    );
    let path = SvgShape::Path(PathShape { vertices: vec![] });
    assert_eq!(ThingInfo::of_shape(&path, 7), None);
}

#[test]
fn what_things_are_made_of() {
    assert_eq!(thing_texture(ThingName::Stone), "stone");
    assert_eq!(thing_texture(ThingName::Spike), "spike");
    assert_eq!(thing_texture(ThingName::RespawnGrass), "respawn-grass");
    assert_eq!(thing_texture(ThingName::RespawnMud), "respawn-mud");
    assert_eq!(thing_material(ThingName::Stone), Material::Stone);
    assert_eq!(thing_material(ThingName::Spike), Material::Stone);
    assert_eq!(thing_material(ThingName::RespawnGrass), Material::Grass);
    assert_eq!(thing_material(ThingName::RespawnMud), Material::Mud);
    assert!(!is_respawn(ThingName::Stone));
    assert!(!is_respawn(ThingName::Spike));
    assert!(is_respawn(ThingName::RespawnGrass));
    assert!(is_respawn(ThingName::RespawnMud));
}

#[test]
fn how_things_are_put_together() {
    let plain = thing_params(ThingName::Stone);
    assert!(matches!(plain.collider, ColliderRepr::DefaultFile));
    assert!(matches!(plain.light, LightRepr::Nothing));
    assert!(plain.lazy);
    let checkpoint = thing_params(ThingName::RespawnMud);
    assert!(matches!(checkpoint.collider, ColliderRepr::DefaultFile));
    assert!(matches!(checkpoint.light, LightRepr::DefaultFile));
    assert!(checkpoint.lazy);
    let standard = BasicThingParams::default();
    assert!(matches!(standard.collider, ColliderRepr::DefaultFile));
    assert!(matches!(standard.light, LightRepr::Nothing));
    assert!(standard.lazy);
}

#[test]
fn area_of_effect_is_an_open_disc() {
    let area = AreaOfEffect::new(300_000);
    let center = Vec2::new(ONE, ONE);
    assert!(area.contains(center, center));
    assert!(area.contains(center, Vec2::new(ONE + 299_999, ONE)));
    assert!(!area.contains(center, Vec2::new(ONE + 300_000, ONE)));
    assert!(area.contains(center, Vec2::new(ONE + 180_000, ONE - 239_999)));
    assert!(!area.contains(center, Vec2::new(ONE + 180_000, ONE - 240_000)));
    assert!(!area.contains(center, Vec2::new(ONE - 300_000, ONE - 300_000)));
}

#[test]
fn an_area_without_radius_holds_nothing() {
    let center = Vec2::new(0, 0);
    assert!(!AreaOfEffect::new(0).contains(center, center));
    assert!(!AreaOfEffect::new(-5).contains(center, center));
}

#[test]
fn area_at_the_edge_of_the_numbers() {
    let area = AreaOfEffect::new(i64::MAX);
    assert!(area.contains(Vec2::new(0, 0), Vec2::new(i64::MAX - 1, 0)));
    assert!(!area.contains(Vec2::new(i64::MIN, i64::MIN), Vec2::new(i64::MAX, i64::MAX)));
    assert!(!area.contains(Vec2::new(-1, 0), Vec2::new(i64::MAX, 0)));
}

#[test]
fn collider_bounds_are_about_the_middle() {
    assert_eq!(collider_bounds(Vec2::new(200, 100)), Rect::new(-100, -50, 200, 100));
    assert_eq!(collider_bounds(Vec2::new(5, 3)), Rect::new(-2, -1, 5, 3));
}

fn circle_item(x: i64, y: i64, r: i64) -> SvgItem {
    SvgItem {
        shape: SvgShape::Circle(CircleShape { pos: Vec2::new(x, y), r, rotate: 0 }),
        color: 0,
        index: 0,
    }
}

#[test]
fn lights_are_read_from_circles() {
    let circle = SvgShape::Circle(CircleShape { pos: Vec2::new(5, 6), r: 7, rotate: 8 });
    assert_eq!(shape_to_light(&circle), Light { pos: Vec2::new(5, 6), radius: 7 });
    let items = vec![circle_item(100, 200, 30), circle_item(0, 0, 5)];
    assert!(check_all_circles(&items));
    let lights = load_light(Vec2::new(150, 101), &items);
    assert_eq!(
        lights.lights,
        vec![
            (Light { pos: Vec2::new(25, 150), radius: 30 }, ONE),
            (Light { pos: Vec2::new(-75, -50), radius: 5 }, ONE),
        ]
    );
    let mixed = vec![
        circle_item(0, 0, 1),
        SvgItem { shape: SvgShape::Path(PathShape { vertices: vec![] }), color: 0, index: 1 },
    ];
    assert!(!check_all_circles(&mixed));
}

#[test]
fn fill_colours() {
    assert_eq!(parse_fill_color(b"#50AA59"), Some(0x50AA59));
    assert_eq!(parse_fill_color(b"50aa59"), Some(0x50AA59));
    assert_eq!(parse_fill_color(b"##ff"), Some(0xFF));
    assert_eq!(parse_fill_color(b"#+ff"), Some(0xFF));
    assert_eq!(parse_fill_color(b"#0"), Some(0));
    assert_eq!(parse_fill_color(b"#FFFFFFFF"), Some(u32::MAX));
    assert_eq!(parse_fill_color(b"#0000000000FF"), Some(0xFF));
}

#[test]
fn ill_written_fill_colours() {
    assert_eq!(parse_fill_color(b""), None);
    assert_eq!(parse_fill_color(b"#"), None);
    assert_eq!(parse_fill_color(b"#+"), None);
    assert_eq!(parse_fill_color(b"+#ff"), None);
    assert_eq!(parse_fill_color(b"#-ff"), None);
    assert_eq!(parse_fill_color(b"#12345G"), None);
    assert_eq!(parse_fill_color(b"#ff ff"), None);
    assert_eq!(parse_fill_color(b"none"), None);
    assert_eq!(parse_fill_color(b"#100000000"), None);
    assert_eq!(parse_fill_color(b"#FFFFFFFFFFFFFFFFFFFFFFFF"), None);
}

#[test]
fn fill_colours_agree_with_the_standard_reading() {
    let samples: [&str; 9] =
        ["#50AA59", "#", "", "##12", "#+7f", "#-7f", "#FFFFFFFF", "#100000000", "#aBcDeF"];
    for s in samples.iter() {
        let expected = u32::from_str_radix(s.trim_start_matches("#"), 16).ok();
        assert_eq!(parse_fill_color(s.as_bytes()), expected);
    }
}
