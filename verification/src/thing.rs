//! Things: the props of a level, recognised by the size and colour of the
//! shape that stands for them in the level's drawing.

use crate::entity::{Component, Entity, EntityBuilder};
use crate::fixed::{clamp64, pixels_of, round_to_pixels, sat_sub, trunc_div};
use crate::floor::{build_collider, with_sensor, LazyCollider, Material, STONE_COLOR};
use crate::geometry::{Rect, Vec2};
use crate::level::LevelId;
use crate::world::World;
use rapier2d::dynamics::RigidBody;
use rapier2d::geometry::ColliderBuilder;
use vstd::prelude::*;

verus! {

/// The fill colour of a checkpoint on grass.
pub const RESPAWN_GRASS_COLOR: u32 = 0xCCCFAA;

/// The fill colour of a checkpoint on mud.
pub const RESPAWN_MUD_COLOR: u32 = 0x938260;

/// The width in pixels that tells a stone from a spike.
pub const STONE_WIDTH_PIXELS: usize = 200;

/// How near the player has to come to a checkpoint to take it.
pub const RESPAWN_AQUIRE_RADIUS: i64 = 300_000;

/// The things that there are.
#[derive(Debug, Clone, Copy, PartialEq, Eq, Structural)]
pub enum ThingName {
    Stone,
    Spike,
    RespawnGrass,
    RespawnMud,
}

/// The size of a thing's shape, in millionths of a metre.
#[derive(Debug, Clone, Copy, PartialEq, Eq, Structural)]
pub enum ThingInfoShapeSize {
    /// Width and height.
    Rect(Vec2),
    /// Radius.
    Circle(i64),
}

/// The size of a thing's shape in whole pixels.
#[derive(Debug, Clone, Copy, PartialEq, Eq, Structural)]
pub enum UsizeShapeSize {
    Rect(usize, usize),
    Circle(usize),
}

/// `pixels_of`, saturating at `usize::MAX`.
pub open spec fn whole_pixels(length: i64) -> usize {
    if pixels_of(length) > usize::MAX {
        usize::MAX
    } else {
        pixels_of(length) as usize
    }
}

impl UsizeShapeSize {
    /// The size in pixels of a size in metres, each length rounded to the
    /// nearest pixel.
    pub open spec fn of_size(size: ThingInfoShapeSize) -> UsizeShapeSize {
        match size {
            ThingInfoShapeSize::Rect(dims) => UsizeShapeSize::Rect(
                whole_pixels(dims.x),
                whole_pixels(dims.y),
            ),
            ThingInfoShapeSize::Circle(radius) => UsizeShapeSize::Circle(whole_pixels(radius)),
        }
    }

    pub fn from_thing_info(thing_info_shape_size: &ThingInfoShapeSize) -> (size: Self)
        ensures
            size == UsizeShapeSize::of_size(*thing_info_shape_size),
    {
        match thing_info_shape_size {
            ThingInfoShapeSize::Rect(dims) => UsizeShapeSize::Rect(
                round_to_pixels(dims.x),
                round_to_pixels(dims.y),
            ),
            ThingInfoShapeSize::Circle(radius) => UsizeShapeSize::Circle(round_to_pixels(*radius)),
        }
    }
}

/// A shape of a level's drawing, taken as a thing.
#[derive(Debug, Clone, Copy, PartialEq, Eq, Structural)]
pub struct ThingInfo {
    pub pos: Vec2,
    pub rotate: i64,
    pub size: ThingInfoShapeSize,
    pub color: u32,
}

impl ThingInfo {
    pub fn new_rect(pos: Vec2, rotate: i64, dims: Vec2, color: u32) -> (info: Self)
        ensures
            info == (ThingInfo { pos, rotate, size: ThingInfoShapeSize::Rect(dims), color }),
    {
        ThingInfo { pos, rotate, size: ThingInfoShapeSize::Rect(dims), color }
    }

    pub fn new_circle(pos: Vec2, rotate: i64, radius: i64, color: u32) -> (info: Self)
        ensures
            info == (ThingInfo { pos, rotate, size: ThingInfoShapeSize::Circle(radius), color }),
    {
        ThingInfo { pos, rotate, size: ThingInfoShapeSize::Circle(radius), color }
    }

    /// The thing that a shape stands for, by its colour and its size in
    /// pixels: in the stone colour, a rectangle of the stone width is a
    /// stone and anything else a spike; the two checkpoint colours give the
    /// two checkpoints; any other colour stands for nothing.
    pub open spec fn name(self) -> Option<ThingName> {
        if self.color == STONE_COLOR {
            match UsizeShapeSize::of_size(self.size) {
                UsizeShapeSize::Rect(width, _) => if width == STONE_WIDTH_PIXELS {
                    Some(ThingName::Stone)
                } else {
                    Some(ThingName::Spike)
                },
                _ => Some(ThingName::Spike),
            }
        } else if self.color == RESPAWN_GRASS_COLOR {
            Some(ThingName::RespawnGrass)
        } else if self.color == RESPAWN_MUD_COLOR {
            Some(ThingName::RespawnMud)
        } else {
            None
        }
    }
}

impl ThingInfo {
    /// The thing that a shape of a drawing may stand for: a rectangle or a
    /// circle with its colour; a path stands for no thing.
    pub open spec fn spec_of_shape(shape: crate::svg::SvgShape, color: u32) -> Option<ThingInfo> {
        match shape {
            crate::svg::SvgShape::Rect(rect) => Some(
                ThingInfo {
                    pos: rect.pos,
                    rotate: rect.rotate,
                    size: ThingInfoShapeSize::Rect(rect.dims),
                    color,
                },
            ),
            crate::svg::SvgShape::Circle(circle) => Some(
                ThingInfo {
                    pos: circle.pos,
                    rotate: circle.rotate,
                    size: ThingInfoShapeSize::Circle(circle.r),
                    color,
                },
            ),
            crate::svg::SvgShape::Path(_) => None,
        }
    }

    pub fn of_shape(shape: &crate::svg::SvgShape, color: u32) -> (info: Option<ThingInfo>)
        ensures
            info == ThingInfo::spec_of_shape(*shape, color),
    {
        match shape {
            crate::svg::SvgShape::Rect(rect) => Some(
                ThingInfo::new_rect(rect.pos, rect.rotate, rect.dims, color),
            ),
            crate::svg::SvgShape::Circle(circle) => Some(
                ThingInfo::new_circle(circle.pos, circle.rotate, circle.r, color),
            ),
            crate::svg::SvgShape::Path(_) => None,
        }
    }
}

/// The bounding rectangle of a collider drawing of size `size`, about the
/// drawing's middle.
pub open spec fn spec_collider_bounds(size: Vec2) -> Rect {
    Rect {
        x: (-trunc_div(size.x as int, 2)) as i64,
        y: (-trunc_div(size.y as int, 2)) as i64,
        w: size.x,
        h: size.y,
    }
}

#[verifier::when_used_as_spec(spec_collider_bounds)]
pub fn collider_bounds(size: Vec2) -> (rect: Rect)
    ensures
        rect == spec_collider_bounds(size),
{
    Rect { x: -half(size.x), y: -half(size.y), w: size.x, h: size.y }
}

/// The thing that a shape stands for, if it stands for one.
pub fn thing_info_to_name(info: ThingInfo) -> (name: Option<ThingName>)
    ensures
        name == info.name(),
{
    let size = UsizeShapeSize::from_thing_info(&info.size);
    if info.color == STONE_COLOR {
        match size {
            UsizeShapeSize::Rect(width, _) => {
                if width == STONE_WIDTH_PIXELS {
                    Some(ThingName::Stone)
                } else {
                    Some(ThingName::Spike)
                }
            },
            _ => Some(ThingName::Spike),
        }
    } else if info.color == RESPAWN_GRASS_COLOR {
        Some(ThingName::RespawnGrass)
    } else if info.color == RESPAWN_MUD_COLOR {
        Some(ThingName::RespawnMud)
    } else {
        None
    }
}

/// Marks an entity as a checkpoint.
#[derive(Debug, Clone, Copy, PartialEq, Eq, Structural)]
pub struct Respawn {}

/// A circle around an entity within which it takes effect.
#[derive(Debug, Clone, Copy, PartialEq, Eq, Structural)]
pub struct AreaOfEffect {
    pub radius: i64,
}

impl AreaOfEffect {
    pub fn new(radius: i64) -> (area: Self)
        ensures
            area.radius == radius,
    {
        AreaOfEffect { radius }
    }

    /// Whether `target` is nearer to `center` than the radius.
    pub open spec fn spec_contains(&self, center: Vec2, target: Vec2) -> bool {
        let dx = center.x - target.x;
        let dy = center.y - target.y;
        self.radius > 0 && dx * dx + dy * dy < self.radius * self.radius
    }

    #[verifier::when_used_as_spec(spec_contains)]
    pub fn contains(&self, center: Vec2, target: Vec2) -> (inside: bool)
        ensures
            inside == self.spec_contains(center, target),
    {
        if self.radius <= 0 {
            return false;
        }
        let r: i128 = self.radius as i128;
        let dx: i128 = center.x as i128 - target.x as i128;
        let dy: i128 = center.y as i128 - target.y as i128;
        let ax: i128 = if dx < 0 {
            -dx
        } else {
            dx
        };
        let ay: i128 = if dy < 0 {
            -dy
        } else {
            dy
        };
        if ax >= r || ay >= r {
            assert(dx * dx + dy * dy >= r * r) by (nonlinear_arith)
                requires
                    ax >= r || ay >= r,
                    r > 0,
                    ax == dx || ax == -dx,
                    ay == dy || ay == -dy,
                    ax >= 0,
                    ay >= 0,
            ;
            return false;
        }
        assert(ax * ax == dx * dx && ay * ay == dy * dy) by (nonlinear_arith)
            requires
                ax == dx || ax == -dx,
                ay == dy || ay == -dy,
        ;
        assert(0 <= ax * ax < 0x4000_0000_0000_0000_0000_0000_0000_0000 && 0 <= ay * ay
            < 0x4000_0000_0000_0000_0000_0000_0000_0000 && 0 <= r * r
            < 0x4000_0000_0000_0000_0000_0000_0000_0000) by (nonlinear_arith)
            requires
                0 <= ax < r,
                0 <= ay < r,
                r < 0x8000_0000_0000_0000,
        ;
        ax * ax + ay * ay < r * r
    }
}

/// A light: a circle of brightness.
#[derive(Debug, Clone, Copy, PartialEq, Eq, Structural)]
pub struct Light {
    pub pos: Vec2,
    pub radius: i64,
}

/// The lights of a thing, each with its strength in millionths.
#[derive(Debug, Clone)]
pub struct Lights {
    pub lights: Vec<(Light, i64)>,
}

/// Where a thing's collider comes from.
pub enum ColliderRepr {
    Nothing,
    /// The collider drawing named like the thing's texture.
    DefaultFile,
    /// The collider drawing of the given name.
    File(String),
    /// This collider, with its bounding rectangle about the origin.
    Raw(Rect, ColliderBuilder),
}

/// Where a thing's lights come from.
#[derive(Debug, Clone)]
pub enum LightRepr {
    Nothing,
    /// The light drawing named like the thing's texture.
    DefaultFile,
    /// The light drawing of the given name.
    File(String),
    Raw(Lights),
}

/// How a thing is put together.
pub struct BasicThingParams {
    pub collider: ColliderRepr,
    pub light: LightRepr,
    /// Whether the collider is made only when the player comes near.
    pub lazy: bool,
}

impl Default for BasicThingParams {
    fn default() -> (params: Self)
        ensures
            params.collider is DefaultFile,
            params.light is Nothing,
            params.lazy,
    {
        BasicThingParams { collider: ColliderRepr::DefaultFile, light: LightRepr::Nothing, lazy: true }
    }
}

/// How a thing is drawn: by the texture of this name.
#[derive(Debug, Clone)]
pub struct ThingDraw {
    pub texture: String,
}

/// The place of a thing's shape in its level's drawing.
#[derive(Debug, Clone, Copy, PartialEq, Eq, Structural)]
pub struct ThingId(pub usize);

/// What a thing is made from: its body, and what the drawings hold that
/// its parameters name, if they name any: the collider with its bounding
/// rectangle about the origin, and the lights.
pub struct ThingParts {
    pub body: RigidBody,
    pub collider_file: Option<(Rect, ColliderBuilder)>,
    pub light_file: Option<Lights>,
}

impl ColliderRepr {
    /// Whether the collider comes from a drawing.
    pub open spec fn from_file(&self) -> bool {
        self is DefaultFile || self is File
    }

    /// The name of the collider drawing to read for a thing with the
    /// texture `texture`, if the collider comes from a drawing.
    pub fn file<'a>(&'a self, texture: &'a str) -> (name: Option<&'a str>)
        ensures
            name is Some == self.from_file(),
            self is DefaultFile ==> name == Some(texture),
            self matches ColliderRepr::File(file) ==> name matches Some(n) && n@ == file@,
    {
        match self {
            ColliderRepr::DefaultFile => Some(texture),
            ColliderRepr::File(file) => Some(file.as_str()),
            _ => None,
        }
    }
}

impl LightRepr {
    /// Whether the lights come from a drawing.
    pub open spec fn from_file(&self) -> bool {
        self is DefaultFile || self is File
    }

    /// The name of the light drawing to read for a thing with the texture
    /// `texture`, if the lights come from a drawing.
    pub fn file<'a>(&'a self, texture: &'a str) -> (name: Option<&'a str>)
        ensures
            name is Some == self.from_file(),
            self is DefaultFile ==> name == Some(texture),
            self matches LightRepr::File(file) ==> name matches Some(n) && n@ == file@,
    {
        match self {
            LightRepr::DefaultFile => Some(texture),
            LightRepr::File(file) => Some(file.as_str()),
            _ => None,
        }
    }
}

/// The texture that a thing is drawn with, which also names its drawings.
pub fn thing_texture(name: ThingName) -> (texture: &'static str)
    ensures
        texture@ == match name {
            ThingName::Stone => "stone"@,
            ThingName::Spike => "spike"@,
            ThingName::RespawnGrass => "respawn-grass"@,
            ThingName::RespawnMud => "respawn-mud"@,
        },
{
    match name {
        ThingName::Stone => "stone",
        ThingName::Spike => "spike",
        ThingName::RespawnGrass => "respawn-grass",
        ThingName::RespawnMud => "respawn-mud",
    }
}

/// What a thing is made of. The checkpoints are of the ground they stand
/// on.
pub open spec fn spec_thing_material(name: ThingName) -> Material {
    match name {
        ThingName::Stone => Material::Stone,
        ThingName::Spike => Material::Stone,
        ThingName::RespawnGrass => Material::Grass,
        ThingName::RespawnMud => Material::Mud,
    }
}

#[verifier::when_used_as_spec(spec_thing_material)]
pub fn thing_material(name: ThingName) -> (material: Material)
    ensures
        material == spec_thing_material(name),
{
    match name {
        ThingName::Stone => Material::Stone,
        ThingName::Spike => Material::Stone,
        ThingName::RespawnGrass => Material::Grass,
        ThingName::RespawnMud => Material::Mud,
    }
}

/// Whether a thing is a checkpoint.
pub open spec fn spec_is_respawn(name: ThingName) -> bool {
    name is RespawnGrass || name is RespawnMud
}

#[verifier::when_used_as_spec(spec_is_respawn)]
pub fn is_respawn(name: ThingName) -> (respawn: bool)
    ensures
        respawn == spec_is_respawn(name),
{
    match name {
        ThingName::RespawnGrass | ThingName::RespawnMud => true,
        _ => false,
    }
}

/// How a thing is put together: every thing has the collider of its
/// default drawing, made lazily, and the checkpoints have the lights of
/// theirs.
pub fn thing_params(name: ThingName) -> (params: BasicThingParams)
    ensures
        params.collider is DefaultFile,
        params.lazy,
        is_respawn(name) ==> params.light is DefaultFile,
        !is_respawn(name) ==> params.light is Nothing,
{
    let light = if is_respawn(name) {
        LightRepr::DefaultFile
    } else {
        LightRepr::Nothing
    };
    BasicThingParams { collider: ColliderRepr::DefaultFile, light, lazy: true }
}

/// The collider that a thing gets, with its bounding rectangle: the one
/// from its drawing or the one given, if any.
pub open spec fn chosen_collider(
    repr: ColliderRepr,
    file: Option<(Rect, ColliderBuilder)>,
) -> Option<(Rect, ColliderBuilder)> {
    match repr {
        ColliderRepr::Nothing => None,
        ColliderRepr::DefaultFile => file,
        ColliderRepr::File(_) => file,
        ColliderRepr::Raw(rect, builder) => Some((rect, builder)),
    }
}

/// The lights that a thing gets: those from its drawing or those given,
/// if any.
pub open spec fn chosen_lights(repr: LightRepr, file: Option<Lights>) -> Option<Lights> {
    match repr {
        LightRepr::Nothing => None,
        LightRepr::DefaultFile => file,
        LightRepr::File(_) => file,
        LightRepr::Raw(lights) => Some(lights),
    }
}

/// The rectangle of the size of `rect` with its middle at `pos`.
pub open spec fn centered_at(pos: Vec2, rect: Rect) -> Rect {
    Rect {
        x: clamp64(pos.x - trunc_div(rect.w as int, 2)),
        y: clamp64(pos.y - trunc_div(rect.h as int, 2)),
        w: rect.w,
        h: rect.h,
    }
}

/// Half of `v`, rounded toward zero.
fn half(v: i64) -> (h: i64)
    ensures
        h == trunc_div(v as int, 2),
{
    if v >= 0 {
        v / 2
    } else if v == i64::MIN {
        -0x4000_0000_0000_0000
    } else {
        -((-v) / 2)
    }
}

/// Whether `entity` is the thing that `basic_thing_ex` makes in the world
/// `before`, leaving the world `after`: an entity with a new body at
/// `pos`, drawn with `texture`, of `material`, with the collider and the
/// lights that it was given. A lazy collider waits in the rectangle of
/// the collider's size around `pos`; a collider that is not lazy is alive
/// on the body at once.
pub open spec fn thing_made(
    entity: Entity,
    before: &World,
    after: &World,
    texture: Seq<char>,
    material: Material,
    pos: Vec2,
    rotation: i64,
    collider: Option<(Rect, ColliderBuilder)>,
    lazy: bool,
    lights: Option<Lights>,
) -> bool {
    &&& entity.body matches Some(body) && !before.physics_world.bodies().contains(body)
        && after.physics_world.bodies() == before.physics_world.bodies().insert(body)
    &&& entity.thing_draw matches Some(draw) && draw.texture@ == texture
    &&& entity.material == Some(material)
    &&& entity.pos == pos
    &&& entity.rotation == rotation
    &&& entity.lights == lights
    &&& entity.level is None
    &&& entity.respawn is None
    &&& entity.area is None
    &&& entity.vertex_draw is None
    &&& entity.thing_id is None
    &&& match collider {
        None => entity.lazy is None && entity.collider is None && after.physics_world.colliders()
            == before.physics_world.colliders(),
        Some((rect, _)) => if lazy {
            &&& entity.lazy matches Some(waiting) && waiting.rect == centered_at(pos, rect)
                && Some(waiting.body_handle) == entity.body
            &&& entity.collider is None
            &&& after.physics_world.colliders() == before.physics_world.colliders()
        } else {
            &&& entity.lazy is None
            &&& entity.collider matches Some(handle) && !before.physics_world.colliders().contains_key(
                handle,
            ) && after.physics_world.colliders() == before.physics_world.colliders().insert(
                handle,
                entity.body,
            )
        },
    }
}

/// The world is as before but for what was added to the physics world.
pub open spec fn same_but_physics(before: &World, after: &World) -> bool {
    &&& after.entities == before.entities
    &&& after.player == before.player
    &&& after.camera == before.camera
    &&& after.levels == before.levels
    &&& after.next_entity == before.next_entity
    &&& after.physics_world.tested() == before.physics_world.tested()
}

/// Makes a thing: puts its body into the physics world, and gives the
/// entity that is to stand for it. The entity is not yet in the world.
pub fn basic_thing_ex(
    world: &mut World,
    pos: Vec2,
    rotation: i64,
    texture: &str,
    material: Material,
    ex: BasicThingParams,
    parts: ThingParts,
) -> (builder: EntityBuilder)
    requires
        old(world).wf(),
    ensures
        final(world).wf(),
        same_but_physics(old(world), final(world)),
        thing_made(
            builder.0,
            old(world),
            final(world),
            texture@,
            material,
            pos,
            rotation,
            chosen_collider(ex.collider, parts.collider_file),
            ex.lazy,
            chosen_lights(ex.light, parts.light_file),
        ),
{
    let ThingParts { body, collider_file, light_file } = parts;
    let BasicThingParams { collider: collider_repr, light: light_repr, lazy } = ex;
    let body_handle = world.physics_world.add_body(body);
    let mut builder = EntityBuilder::at(pos, rotation).add(Component::Body(body_handle)).add(
        Component::ThingDraw(ThingDraw { texture: texture.to_owned() }),
    ).add(Component::Material(material));
    let collider = match collider_repr {
        ColliderRepr::DefaultFile => collider_file,
        ColliderRepr::File(_) => collider_file,
        ColliderRepr::Raw(rect, raw) => Some((rect, raw)),
        ColliderRepr::Nothing => None,
    };
    match collider {
        Some((rect, described)) => {
            let described = with_sensor(described, !material.rigid());
            if lazy {
                let rect = Rect {
                    x: sat_sub(pos.x, half(rect.w)),
                    y: sat_sub(pos.y, half(rect.h)),
                    w: rect.w,
                    h: rect.h,
                };
                builder = builder.add(
                    Component::Lazy(LazyCollider { rect, builder: described, body_handle }),
                );
            } else {
                let handle = world.physics_world.add_collider(
                    build_collider(&described),
                    body_handle,
                );
                builder = builder.add(Component::Collider(handle));
            }
        },
        None => {},
    }
    let light = match light_repr {
        LightRepr::DefaultFile => light_file,
        LightRepr::File(_) => light_file,
        LightRepr::Raw(lights) => Some(lights),
        LightRepr::Nothing => None,
    };
    match light {
        Some(lights) => {
            builder = builder.add(Component::Lights(lights));
        },
        None => {},
    }
    proof {
        assert forall|i: int| 0 <= i < world.entities@.len() implies world.admits(
            #[trigger] world.entities@[i],
        ) by {
            assert(old(world).admits(old(world).entities@[i]));
        }
    }
    builder
}

/// Makes a thing with the collider of its default drawing, made lazily,
/// and without lights.
pub fn basic_thing(
    world: &mut World,
    pos: Vec2,
    rotation: i64,
    texture: &str,
    material: Material,
    parts: ThingParts,
) -> (builder: EntityBuilder)
    requires
        old(world).wf(),
    ensures
        final(world).wf(),
        same_but_physics(old(world), final(world)),
        thing_made(
            builder.0,
            old(world),
            final(world),
            texture@,
            material,
            pos,
            rotation,
            parts.collider_file,
            true,
            None,
        ),
{
    basic_thing_ex(world, pos, rotation, texture, material, BasicThingParams::default(), parts)
}

/// Whether `entity` is the thing called `name` as `thing_name_to_entity`
/// makes it: the thing of its texture and material with a lazy collider,
/// and for a checkpoint also its lights, the checkpoint mark and the area
/// within which the player takes it.
pub open spec fn named_thing_made(
    entity: Entity,
    before: &World,
    after: &World,
    name: ThingName,
    pos: Vec2,
    rotation: i64,
    parts: ThingParts,
) -> bool {
    let plain = Entity { respawn: None, area: None, ..entity };
    &&& thing_made(
        plain,
        before,
        after,
        match name {
            ThingName::Stone => "stone"@,
            ThingName::Spike => "spike"@,
            ThingName::RespawnGrass => "respawn-grass"@,
            ThingName::RespawnMud => "respawn-mud"@,
        },
        thing_material(name),
        pos,
        rotation,
        parts.collider_file,
        true,
        if is_respawn(name) {
            parts.light_file
        } else {
            None
        },
    )
    &&& entity.respawn is Some == is_respawn(name)
    &&& entity.area == if is_respawn(name) {
        Some(AreaOfEffect { radius: RESPAWN_AQUIRE_RADIUS })
    } else {
        None
    }
}

/// Whether `entity` stands for the thing called `name` at `pos`, turned by
/// `rotation`, as an entity of `level` made from `parts`: it has a body,
/// the texture and the material of the thing, a lazy collider in the
/// rectangle of its collider's size around `pos` where it has a collider,
/// and for a checkpoint its lights, the checkpoint mark and the area
/// within which the player takes it.
pub open spec fn is_named_thing(
    entity: Entity,
    name: ThingName,
    pos: Vec2,
    rotation: i64,
    level: LevelId,
    id: ThingId,
    parts: ThingParts,
) -> bool {
    &&& entity.body is Some
    &&& entity.thing_draw matches Some(draw) && draw.texture@ == match name {
        ThingName::Stone => "stone"@,
        ThingName::Spike => "spike"@,
        ThingName::RespawnGrass => "respawn-grass"@,
        ThingName::RespawnMud => "respawn-mud"@,
    }
    &&& entity.material == Some(thing_material(name))
    &&& entity.pos == pos
    &&& entity.rotation == rotation
    &&& entity.level == Some(level)
    &&& entity.thing_id == Some(id)
    &&& entity.vertex_draw is None
    &&& entity.collider is None
    &&& match parts.collider_file {
        None => entity.lazy is None,
        Some((rect, _)) => entity.lazy matches Some(waiting) && waiting.rect == centered_at(
            pos,
            rect,
        ) && Some(waiting.body_handle) == entity.body,
    }
    &&& entity.lights == if is_respawn(name) {
        parts.light_file
    } else {
        None
    }
    &&& entity.respawn is Some == is_respawn(name)
    &&& entity.area == if is_respawn(name) {
        Some(AreaOfEffect { radius: RESPAWN_AQUIRE_RADIUS })
    } else {
        None
    }
}

/// Makes the thing called `name` at `pos`, turned by `rotation`: puts its
/// body into the physics world, and gives the entity that is to stand for
/// it.
pub fn thing_name_to_entity(
    world: &mut World,
    name: ThingName,
    pos: Vec2,
    rotation: i64,
    parts: ThingParts,
) -> (builder: EntityBuilder)
    requires
        old(world).wf(),
    ensures
        final(world).wf(),
        same_but_physics(old(world), final(world)),
        named_thing_made(builder.0, old(world), final(world), name, pos, rotation, parts),
{
    let texture = thing_texture(name);
    let material = thing_material(name);
    let builder = basic_thing_ex(
        world,
        pos,
        rotation,
        texture,
        material,
        thing_params(name),
        parts,
    );
    if is_respawn(name) {
        builder.add(Component::Respawn(Respawn {})).add(
            Component::Area(AreaOfEffect::new(RESPAWN_AQUIRE_RADIUS)),
        )
    } else {
        builder
    }
}

/// Puts the thing that a shape stands for into the world, if it stands
/// for one: at the shape's place moved by `pos`, as an entity of `level`
/// that remembers the shape's place in the drawing.
pub fn spawn_thing(
    world: &mut World,
    thing_info: ThingInfo,
    level: LevelId,
    thing_id: ThingId,
    pos: Vec2,
    parts: ThingParts,
)
    requires
        old(world).wf(),
        old(world).levels.contains(level),
    ensures
        final(world).wf(),
        thing_info.name() is None ==> *final(world) == *old(world),
        thing_info.name() matches Some(name) ==> {
            let made = final(world).entities@.last();
            &&& final(world).entities@.len() == old(world).entities@.len() + 1
            &&& final(world).entities@.drop_last() == old(world).entities@
            &&& made.level == Some(level)
            &&& made.thing_id == Some(thing_id)
            &&& is_named_thing(
                made,
                name,
                thing_info.pos.plus(pos),
                thing_info.rotate,
                level,
                thing_id,
                parts,
            )
            &&& named_thing_made(
                Entity { level: None, thing_id: None, ..made },
                old(world),
                final(world),
                name,
                thing_info.pos.plus(pos),
                thing_info.rotate,
                parts,
            )
        },
        final(world).physics_world.tested() == old(world).physics_world.tested(),
        final(world).player == old(world).player,
        final(world).camera == old(world).camera,
        final(world).levels == old(world).levels,
{
    let name = match thing_info_to_name(thing_info) {
        Some(name) => name,
        None => {
            return;
        },
    };
    let ghost start = world.entities@;
    let builder = thing_name_to_entity(
        world,
        name,
        thing_info.pos.plus(pos),
        thing_info.rotate,
        parts,
    );
    let entity = builder.add(Component::Level(level)).add(Component::ThingId(thing_id)).build();
    proof {
        let body = entity.body->0;
        assert forall|i: int| 0 <= i < start.len() implies !(#[trigger] start[i]).refers_to(body)
            && (start[i].collider is Some ==> start[i].collider != entity.collider) by {
            assert(old(world).admits(start[i]));
        }
        assert(world.can_take(entity));
    }
    world.spawn(entity);
    proof {
        assert(world.entities@.drop_last() =~= start);
    }
}

} // verus!
