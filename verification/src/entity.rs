//! Entities: what a level is made of once it is loaded. An entity is a
//! set of components, each of which it has or has not; the systems of the
//! world pick their entities by the components that they hold. The world
//! keeps its entities in the order in which it took them in, so that every
//! pass over them meets them in the same order, and what a pass does is
//! settled by the world alone.

use crate::floor::{LazyCollider, Material};
use crate::geometry::Vec2;
use crate::level::LevelId;
use crate::physics_world::{BodyHandle, ColliderHandle};
use crate::thing::{AreaOfEffect, Lights, Respawn, ThingDraw, ThingId};
use vstd::prelude::*;

verus! {

/// How see-through water is drawn, in millionths.
pub const WATER_ALPHA: i64 = 700_000;

/// A floor drawn as three nested bands of colour with tiles along its
/// edges.
#[derive(Debug, Clone)]
pub struct TiledDraw {
    /// The family of tile textures.
    pub tile: &'static str,
    /// The colours of the bands, from the outside in, as `0xRRGGBB`.
    pub colors: [u32; 3],
    pub vertices: Vec<Vec2>,
}

/// A floor drawn as one see-through area.
#[derive(Debug, Clone)]
pub struct LiquidDraw {
    pub color: u32,
    pub alpha: i64,
    pub vertices: Vec<Vec2>,
}

/// How a floor is drawn.
#[derive(Debug, Clone)]
pub enum VertexDraw {
    Tiled(TiledDraw),
    Liquid(LiquidDraw),
}

/// Whether `draw` is how a floor of `material` with the outline
/// `vertices` is drawn: water as a liquid, every solid material in tiles
/// of its own family and colours.
pub open spec fn draws_floor(draw: VertexDraw, material: Material, vertices: Seq<Vec2>) -> bool {
    match draw {
        VertexDraw::Liquid(liquid) => material is Water && liquid.color == 0x1667B1
            && liquid.alpha == WATER_ALPHA && liquid.vertices@ == vertices,
        VertexDraw::Tiled(tiled) => tiled.vertices@ == vertices && match material {
            Material::Grass => tiled.tile@ == "grass"@ && tiled.colors@
                == seq![0x8BB661u32, 0x50AA59u32, 0x449861u32],
            Material::Stone => tiled.tile@ == "stone"@ && tiled.colors@
                == seq![0x667696u32, 0x54628Au32, 0x495380u32],
            Material::Mud => tiled.tile@ == "mud"@ && tiled.colors@
                == seq![0x775444u32, 0x63403Du32, 0x53343Cu32],
            Material::Water => false,
        },
    }
}

impl Material {
    /// How a floor of this material, with this outline, is drawn.
    pub fn to_vertex_draw(self, vertices: Vec<Vec2>) -> (draw: VertexDraw)
        ensures
            draws_floor(draw, self, vertices@),
    {
        match self {
            Material::Grass => {
                let colors: [u32; 3] = [0x8BB661, 0x50AA59, 0x449861];
                assert(colors@ =~= seq![0x8BB661u32, 0x50AA59u32, 0x449861u32]);
                VertexDraw::Tiled(TiledDraw { tile: "grass", colors, vertices })
            },
            Material::Stone => {
                let colors: [u32; 3] = [0x667696, 0x54628A, 0x495380];
                assert(colors@ =~= seq![0x667696u32, 0x54628Au32, 0x495380u32]);
                VertexDraw::Tiled(TiledDraw { tile: "stone", colors, vertices })
            },
            Material::Mud => {
                let colors: [u32; 3] = [0x775444, 0x63403D, 0x53343C];
                assert(colors@ =~= seq![0x775444u32, 0x63403Du32, 0x53343Cu32]);
                VertexDraw::Tiled(TiledDraw { tile: "mud", colors, vertices })
            },
            Material::Water => VertexDraw::Liquid(
                LiquidDraw { color: 0x1667B1, alpha: WATER_ALPHA, vertices },
            ),
        }
    }
}

/// The name of an entity. The world gives every entity that it takes in a
/// name of its own.
#[derive(Debug, Clone, Copy, PartialEq, Eq, Hash, Structural)]
pub struct EntityId(pub u64);

/// An entity with its components.
pub struct Entity {
    pub id: EntityId,
    /// The body that the entity brought into the world, and that leaves
    /// the world with it.
    pub body: Option<BodyHandle>,
    /// The entity's live collider.
    pub collider: Option<ColliderHandle>,
    /// The collider that the entity has while the player is near.
    pub lazy: Option<LazyCollider>,
    pub material: Option<Material>,
    /// The level that the entity belongs to, and is unloaded with.
    pub level: Option<LevelId>,
    pub respawn: Option<Respawn>,
    pub area: Option<AreaOfEffect>,
    pub vertex_draw: Option<VertexDraw>,
    pub thing_draw: Option<ThingDraw>,
    pub lights: Option<Lights>,
    pub thing_id: Option<ThingId>,
    /// Where the entity's body was put, and for a fixed body still is.
    pub pos: Vec2,
    /// How the entity's body was turned, in millionths of a radian.
    pub rotation: i64,
}

impl Entity {
    /// The body that the entity's collider hangs on: that of its lazy
    /// collider, or else its own.
    pub open spec fn anchor(&self) -> Option<BodyHandle> {
        match self.lazy {
            Some(lazy) => Some(lazy.body_handle),
            None => self.body,
        }
    }

    /// Whether the entity holds the handle of body `body`, as its own body
    /// or as that of its lazy collider.
    pub open spec fn refers_to(&self, body: BodyHandle) -> bool {
        self.body == Some(body) || (self.lazy matches Some(lazy) && lazy.body_handle == body)
    }

    /// The same entity with no live collider or with another one.
    pub open spec fn with_collider(self, collider: Option<ColliderHandle>) -> Entity {
        Entity { collider, ..self }
    }
}

/// One component of an entity.
pub enum Component {
    Body(BodyHandle),
    Collider(ColliderHandle),
    Lazy(LazyCollider),
    Material(Material),
    Level(LevelId),
    Respawn(Respawn),
    Area(AreaOfEffect),
    VertexDraw(VertexDraw),
    ThingDraw(ThingDraw),
    Lights(Lights),
    ThingId(ThingId),
}

/// An entity in the making.
pub struct EntityBuilder(pub Entity);

impl EntityBuilder {
    /// An entity without components, at the origin.
    pub open spec fn blank() -> Entity {
        Entity {
            id: EntityId(0),
            body: None,
            collider: None,
            lazy: None,
            material: None,
            level: None,
            respawn: None,
            area: None,
            vertex_draw: None,
            thing_draw: None,
            lights: None,
            thing_id: None,
            pos: Vec2 { x: 0, y: 0 },
            rotation: 0,
        }
    }

    /// The entity with one more component; a component of the same kind
    /// that it had is replaced.
    pub open spec fn added(entity: Entity, component: Component) -> Entity {
        match component {
            Component::Body(body) => Entity { body: Some(body), ..entity },
            Component::Collider(collider) => Entity { collider: Some(collider), ..entity },
            Component::Lazy(lazy) => Entity { lazy: Some(lazy), ..entity },
            Component::Material(material) => Entity { material: Some(material), ..entity },
            Component::Level(level) => Entity { level: Some(level), ..entity },
            Component::Respawn(respawn) => Entity { respawn: Some(respawn), ..entity },
            Component::Area(area) => Entity { area: Some(area), ..entity },
            Component::VertexDraw(draw) => Entity { vertex_draw: Some(draw), ..entity },
            Component::ThingDraw(draw) => Entity { thing_draw: Some(draw), ..entity },
            Component::Lights(lights) => Entity { lights: Some(lights), ..entity },
            Component::ThingId(thing_id) => Entity { thing_id: Some(thing_id), ..entity },
        }
    }

    /// An entity without components, at the origin.
    pub fn new() -> (builder: Self)
        ensures
            builder.0 == EntityBuilder::blank(),
    {
        EntityBuilder(
            Entity {
                id: EntityId(0),
                body: None,
                collider: None,
                lazy: None,
                material: None,
                level: None,
                respawn: None,
                area: None,
                vertex_draw: None,
                thing_draw: None,
                lights: None,
                thing_id: None,
                pos: Vec2 { x: 0, y: 0 },
                rotation: 0,
            },
        )
    }

    /// An entity without components that stands at `pos`, turned by
    /// `rotation`.
    pub fn at(pos: Vec2, rotation: i64) -> (builder: Self)
        ensures
            builder.0 == (Entity { pos, rotation, ..EntityBuilder::blank() }),
    {
        let mut builder = EntityBuilder::new();
        builder.0.pos = pos;
        builder.0.rotation = rotation;
        builder
    }

    /// The entity with one more component.
    pub fn add(self, component: Component) -> (builder: Self)
        ensures
            builder.0 == EntityBuilder::added(self.0, component),
    {
        let mut entity = self.0;
        match component {
            Component::Body(body) => {
                entity.body = Some(body);
            },
            Component::Collider(collider) => {
                entity.collider = Some(collider);
            },
            Component::Lazy(lazy) => {
                entity.lazy = Some(lazy);
            },
            Component::Material(material) => {
                entity.material = Some(material);
            },
            Component::Level(level) => {
                entity.level = Some(level);
            },
            Component::Respawn(respawn) => {
                entity.respawn = Some(respawn);
            },
            Component::Area(area) => {
                entity.area = Some(area);
            },
            Component::VertexDraw(draw) => {
                entity.vertex_draw = Some(draw);
            },
            Component::ThingDraw(draw) => {
                entity.thing_draw = Some(draw);
            },
            Component::Lights(lights) => {
                entity.lights = Some(lights);
            },
            Component::ThingId(thing_id) => {
                entity.thing_id = Some(thing_id);
            },
        }
        EntityBuilder(entity)
    }

    /// The entity as it has been made.
    pub fn build(self) -> (entity: Entity)
        ensures
            entity == self.0,
    {
        self.0
    }
}

} // verus!
