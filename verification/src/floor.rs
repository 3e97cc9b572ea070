//! Floors: what they are made of, and the colliders along their edges that
//! come to life only near the player.

use crate::entity::{draws_floor, Component, Entity, EntityBuilder};
use crate::geometry::{Rect, Vec2};
use crate::level::LevelId;
use crate::physics_world::BodyHandle;
use crate::polygon::{add_rect_padding, two_points_rect};
use crate::world::{share_a_body, World};
use rapier2d::dynamics::RigidBody;
use rapier2d::geometry::{Collider, ColliderBuilder};
use vstd::prelude::*;

verus! {

// The physics engine's description of a collider, taken as it is.
#[verifier::external_type_specification]
#[verifier::external_body]
pub struct ExColliderBuilder(ColliderBuilder);

/// The fill colour of grass floors.
pub const GRASS_COLOR: u32 = 0x50AA59;

/// The fill colour of water.
pub const WATER_COLOR: u32 = 0x1E7EB4;

/// The fill colour of stone floors.
pub const STONE_COLOR: u32 = 0x495380;

/// The fill colour of mud floors.
pub const MUD_COLOR: u32 = 0x63403D;

/// What a floor or a prop is made of.
#[derive(Debug, Clone, Copy, PartialEq, Eq, Structural)]
pub enum Material {
    Grass,
    Stone,
    Water,
    Mud,
}

impl Material {
    /// Whether the material is solid. Water is not: it is felt, not stood
    /// on.
    pub open spec fn spec_rigid(self) -> bool {
        !(self is Water)
    }

    #[verifier::when_used_as_spec(spec_rigid)]
    pub fn rigid(self) -> (solid: bool)
        ensures
            solid == self.spec_rigid(),
    {
        match self {
            Material::Grass | Material::Stone | Material::Mud => true,
            Material::Water => false,
        }
    }

    /// The material that a fill colour stands for, if it stands for one.
    pub open spec fn of_color(hex_color: u32) -> Option<Material> {
        if hex_color == GRASS_COLOR {
            Some(Material::Grass)
        } else if hex_color == WATER_COLOR {
            Some(Material::Water)
        } else if hex_color == STONE_COLOR {
            Some(Material::Stone)
        } else if hex_color == MUD_COLOR {
            Some(Material::Mud)
        } else {
            None
        }
    }

    /// The material of a fill colour, or nothing for a colour that stands
    /// for no material.
    pub fn try_from_hex_color(hex_color: u32) -> (material: Option<Material>)
        ensures
            material == Material::of_color(hex_color),
    {
        if hex_color == GRASS_COLOR {
            Some(Material::Grass)
        } else if hex_color == WATER_COLOR {
            Some(Material::Water)
        } else if hex_color == STONE_COLOR {
            Some(Material::Stone)
        } else if hex_color == MUD_COLOR {
            Some(Material::Mud)
        } else {
            None
        }
    }

    /// The material of a fill colour that stands for one.
    pub fn from_hex_color(hex_color: u32) -> (material: Material)
        requires
            Material::of_color(hex_color) is Some,
        ensures
            Material::of_color(hex_color) == Some(material),
    {
        match Material::try_from_hex_color(hex_color) {
            Some(material) => material,
            None => Material::Grass,
        }
    }
}

/// A collider that is yet to be made: where it would be, what it would be
/// made from, and the body it would hang on.
pub struct LazyCollider {
    pub rect: Rect,
    pub builder: ColliderBuilder,
    pub body_handle: BodyHandle,
}

/// Makes a collider from its description. Calls `ColliderBuilder::build`.
#[verifier::external_body]
pub(crate) fn build_collider(builder: &ColliderBuilder) -> (collider: Collider) {
    builder.build()
}

/// The description with its sensor flag set as given. Calls
/// `ColliderBuilder::sensor`.
#[verifier::external_body]
pub(crate) fn with_sensor(builder: ColliderBuilder, is_sensor: bool) -> (flagged: ColliderBuilder) {
    builder.sensor(is_sensor)
}

/// How far the rectangle of an edge's lazy collider reaches beyond the
/// edge: 30 pixels.
pub const EDGE_PADDING: i64 = 50_000;

/// What a floor is made from: its body, for a solid floor the
/// descriptions of the colliders along its edges, one for every vertex,
/// and for a liquid the sensor that fills it. A liquid floor cannot be
/// made without its sensor.
pub struct FloorParts {
    pub body: RigidBody,
    pub edges: Vec<ColliderBuilder>,
    pub sensor: Option<Collider>,
}

/// The outline moved by `pos`.
pub open spec fn moved_by(vertices: Seq<Vec2>, pos: Vec2) -> Seq<Vec2> {
    Seq::new(vertices.len(), |i: int| vertices[i].plus(pos))
}

/// The rectangle within which the collider of edge `i` is alive: the edge
/// runs from the vertex after vertex `i` to the one after that, and its
/// rectangle reaches beyond it by the padding on every side.
pub open spec fn edge_rect(vertices: Seq<Vec2>, i: int) -> Rect {
    let n = vertices.len() as int;
    add_rect_padding(two_points_rect(vertices[(i + 1) % n], vertices[(i + 2) % n]), EDGE_PADDING)
}

/// The entity that stands for a floor.
pub open spec fn is_floor_entity(
    entity: Entity,
    body: BodyHandle,
    material: Material,
    level: LevelId,
    vertices: Seq<Vec2>,
) -> bool {
    &&& entity.body == Some(body)
    &&& entity.material == Some(material)
    &&& entity.level == Some(level)
    &&& entity.vertex_draw matches Some(draw) && draws_floor(draw, material, vertices)
    &&& entity.lazy is None
    &&& entity.respawn is None
    &&& entity.area is None
    &&& entity.thing_draw is None
    &&& entity.lights is None
    &&& entity.thing_id is None
    &&& entity.pos == (Vec2 { x: 0, y: 0 })
    &&& entity.rotation == 0
}

/// The entity that stands for the lazy collider of a floor's edge.
pub open spec fn is_edge_entity(
    entity: Entity,
    lazy: LazyCollider,
    material: Material,
    level: LevelId,
) -> bool {
    &&& entity.lazy == Some(lazy)
    &&& entity.material == Some(material)
    &&& entity.level == Some(level)
    &&& entity.body is None
    &&& entity.collider is None
    &&& entity.vertex_draw is None
    &&& entity.respawn is None
    &&& entity.area is None
    &&& entity.thing_draw is None
    &&& entity.lights is None
    &&& entity.thing_id is None
    &&& entity.pos == (Vec2 { x: 0, y: 0 })
    &&& entity.rotation == 0
}

/// Whether the entities from place `at` on stand for a floor with the
/// outline `vertices`, made of `material` at `pos` as part of `level`: the
/// floor's own entity, which holds its body, and after it, for a solid
/// floor, one entity for the lazy collider of every edge, made from the
/// description given for that edge. A liquid floor holds its sensor as
/// its live collider. No entity is left with neither.
pub open spec fn floor_spawned(
    entities: Seq<Entity>,
    at: int,
    vertices: Seq<Vec2>,
    material: Material,
    level: LevelId,
    pos: Vec2,
    parts: FloorParts,
) -> bool {
    let floor = entities[at];
    &&& floor.body matches Some(body) && is_floor_entity(
        floor,
        body,
        material,
        level,
        moved_by(vertices, pos),
    )
    &&& floor.collider is Some == !material.rigid()
    &&& material.rigid() ==> forall|i: int|
        0 <= i < vertices.len() ==> is_edge_entity(
            #[trigger] entities[at + 1 + i],
            LazyCollider {
                rect: edge_rect(moved_by(vertices, pos), i),
                builder: parts.edges@[i],
                body_handle: floor.body->0,
            },
            material,
            level,
        )
}

/// The outline moved by `pos`.
fn place_vertices(vertices: &Vec<Vec2>, pos: Vec2) -> (placed: Vec<Vec2>)
    ensures
        placed@ == moved_by(vertices@, pos),
{
    let mut placed: Vec<Vec2> = Vec::new();
    let mut i: usize = 0;
    while i < vertices.len()
        invariant
            i <= vertices@.len(),
            placed@.len() == i,
            forall|k: int| 0 <= k < i ==> placed@[k] == vertices@[k].plus(pos),
        decreases vertices@.len() - i,
    {
        placed.push(vertices[i].plus(pos));
        i += 1;
    }
    assert(placed@ =~= moved_by(vertices@, pos));
    placed
}

/// The rectangles of the edges of an outline.
fn edge_rects(vertices: &Vec<Vec2>) -> (rects: Vec<Rect>)
    ensures
        rects@.len() == vertices@.len(),
        forall|i: int| 0 <= i < rects@.len() ==> rects@[i] == edge_rect(vertices@, i),
{
    let n = vertices.len();
    let mut rects: Vec<Rect> = Vec::new();
    let mut i: usize = 0;
    while i < n
        invariant
            n == vertices@.len(),
            i <= n,
            rects@.len() == i,
            forall|k: int| 0 <= k < i ==> rects@[k] == edge_rect(vertices@, k),
        decreases n - i,
    {
        let first = if n - i > 1 {
            i + 1
        } else {
            i + 1 - n
        };
        let second = if n - first > 1 {
            first + 1
        } else {
            first + 1 - n
        };
        proof {
            let m = n as int;
            assert(first == (i + 1) % m) by (nonlinear_arith)
                requires
                    0 <= i < m,
                    first == if m - i > 1 {
                        i + 1
                    } else {
                        i + 1 - m
                    },
            ;
            assert(second == (i + 2) % m) by (nonlinear_arith)
                requires
                    0 <= i < m,
                    first == (i + 1) % m,
                    0 <= first < m,
                    second == if m - first > 1 {
                        first + 1
                    } else {
                        first + 1 - m
                    },
            ;
        }
        rects.push(
            add_rect_padding(two_points_rect(vertices[first], vertices[second]), EDGE_PADDING),
        );
        i += 1;
    }
    rects
}

/// Puts a floor into the world at `pos`: a fixed body, drawn by the
/// floor's material, and around it, for a solid floor, a lazy collider
/// along every edge, for a liquid the sensor that fills it.
pub fn spawn_floor(
    world: &mut World,
    vertices: Vec<Vec2>,
    material: Material,
    level: LevelId,
    pos: Vec2,
    parts: FloorParts,
)
    requires
        old(world).wf(),
        old(world).levels.contains(level),
        material.rigid() ==> parts.edges@.len() == vertices@.len(),
        !material.rigid() ==> parts.sensor is Some,
    ensures
        final(world).wf(),
        final(world).entities@.len() == old(world).entities@.len() + 1 + if material.rigid() {
            vertices@.len()
        } else {
            0
        },
        forall|i: int|
            0 <= i < old(world).entities@.len() ==> final(world).entities@[i] == old(world).entities@[i],
        forall|i: int|
            old(world).entities@.len() <= i < final(world).entities@.len() ==> (
            #[trigger] final(world).entities@[i]).level == Some(level),
        ({
            let floor = final(world).entities@[old(world).entities@.len() as int];
            &&& floor.body matches Some(body) && !old(world).physics_world.bodies().contains(body)
                && final(world).physics_world.bodies() == old(world).physics_world.bodies().insert(
                body,
            ) && is_floor_entity(floor, body, material, level, moved_by(vertices@, pos))
            &&& material.rigid() ==> floor.collider is None && final(world).physics_world.colliders() == old(world).physics_world.colliders()
            &&& !material.rigid() ==> floor.collider is Some && !old(world).physics_world.colliders().contains_key(floor.collider->0) && final(world).physics_world.colliders() == old(world).physics_world.colliders().insert(
                floor.collider->0,
                floor.body,
            )
            &&& material.rigid() ==> forall|i: int|
                0 <= i < vertices@.len() ==> is_edge_entity(
                    #[trigger] final(world).entities@[old(world).entities@.len() + 1 + i],
                    LazyCollider {
                        rect: edge_rect(moved_by(vertices@, pos), i),
                        builder: parts.edges@[i],
                        body_handle: floor.body->0,
                    },
                    material,
                    level,
                )
        }),
        floor_spawned(
            final(world).entities@,
            old(world).entities@.len() as int,
            vertices@,
            material,
            level,
            pos,
            parts,
        ),
        crate::physics_world::colliders_kept(
            old(world).physics_world.colliders(),
            final(world).physics_world.colliders(),
        ),
        final(world).physics_world.tested() == old(world).physics_world.tested(),
        final(world).player == old(world).player,
        final(world).camera == old(world).camera,
        final(world).levels == old(world).levels,
{
    let ghost start = world.entities@;
    let placed = place_vertices(&vertices, pos);
    let rects = edge_rects(&placed);
    let ghost outline = placed@;
    let draw = material.to_vertex_draw(placed);
    let FloorParts { body, edges, sensor } = parts;
    let mut edges = edges;
    let body_handle = world.physics_world.add_body(body);
    let rigid = material.rigid();
    let mut builder = EntityBuilder::new().add(Component::Body(body_handle)).add(
        Component::VertexDraw(draw),
    ).add(Component::Material(material)).add(Component::Level(level));
    if !rigid {
        match sensor {
            Some(sensor) => {
                let handle = world.physics_world.add_collider(sensor, body_handle);
                builder = builder.add(Component::Collider(handle));
            },
            None => {},
        }
    }
    let floor = builder.build();
    proof {
        assert forall|i: int| 0 <= i < start.len() implies world.admits(
            #[trigger] world.entities@[i],
        ) by {
            assert(old(world).admits(start[i]));
        }
        assert(world.wf());
        assert forall|i: int| 0 <= i < start.len() implies !(#[trigger] start[i]).refers_to(
            body_handle,
        ) && (start[i].collider is Some ==> start[i].collider != floor.collider) by {
            assert(old(world).admits(start[i]));
        }
    }
    world.spawn(floor);
    let ghost floor_named = world.entities@[start.len() as int];
    if rigid {
        let ghost given = edges@;
        let mut i: usize = 0;
        while i < rects.len()
            invariant
                world.wf(),
                rigid == material.rigid(),
                rigid,
                given.len() == rects@.len(),
                i <= rects@.len(),
                edges@ == given.skip(i as int),
                world.levels.contains(level),
                world.physics_world.bodies().contains(body_handle),
                body_handle != world.player.body.body_handle(),
                world.entities@.len() == start.len() + 1 + i,
                forall|k: int| 0 <= k < start.len() ==> world.entities@[k] == start[k],
                world.entities@[start.len() as int] == floor_named,
                floor_named.level == Some(level),
                forall|k: int|
                    0 <= k < start.len() ==> !(#[trigger] world.entities@[k]).refers_to(body_handle),
                forall|k: int|
                    0 <= k < i ==> is_edge_entity(
                        #[trigger] world.entities@[start.len() + 1 + k],
                        LazyCollider {
                            rect: rects@[k],
                            builder: given[k],
                            body_handle,
                        },
                        material,
                        level,
                    ),
                world.physics_world.bodies() == old(world).physics_world.bodies().insert(
                    body_handle,
                ),
                world.physics_world.colliders() == old(world).physics_world.colliders(),
                world.physics_world.tested() == old(world).physics_world.tested(),
                world.player == old(world).player,
                world.camera == old(world).camera,
                world.levels == old(world).levels,
            decreases rects@.len() - i,
        {
            let edge = edges.remove(0);
            let lazy = LazyCollider { rect: rects[i], builder: edge, body_handle };
            let entity = EntityBuilder::new().add(Component::Lazy(lazy)).add(
                Component::Material(material),
            ).add(Component::Level(level)).build();
            proof {
                assert(edges@ =~= given.skip(i + 1));
                assert(edge == given[i as int]);
                let now = world.entities@;
                assert forall|k: int|
                    0 <= k < now.len() && (share_a_body(#[trigger] now[k], entity) || share_a_body(
                        entity,
                        now[k],
                    )) implies now[k].level == entity.level by {
                    if k < start.len() {
                        assert(!now[k].refers_to(body_handle));
                    } else if k == start.len() {
                    } else {
                        assert(is_edge_entity(
                            now[start.len() + 1 + (k - start.len() - 1)],
                            LazyCollider {
                                rect: rects@[k - start.len() - 1],
                                builder: given[k - start.len() - 1],
                                body_handle,
                            },
                            material,
                            level,
                        ));
                    }
                }
            }
            let ghost before = world.entities@;
            world.spawn(entity);
            proof {
                let now = world.entities@;
                assert forall|k: int| 0 <= k < i + 1 implies is_edge_entity(
                    #[trigger] now[start.len() + 1 + k],
                    LazyCollider { rect: rects@[k], builder: given[k], body_handle },
                    material,
                    level,
                ) by {
                    if k < i {
                        assert(now[start.len() + 1 + k] == before[start.len() + 1 + k]);
                    }
                }
                assert forall|k: int| 0 <= k < start.len() implies !(#[trigger] now[k]).refers_to(
                    body_handle,
                ) by {
                    assert(now[k] == before[k]);
                }
                assert forall|k: int| 0 <= k < start.len() implies now[k] == start[k] by {
                    assert(now[k] == before[k]);
                }
                assert(now[start.len() as int] == before[start.len() as int]);
            }
            i += 1;
        }
        proof {
            let now = world.entities@;
            assert forall|j: int| start.len() <= j < now.len() implies (#[trigger] now[j]).level
                == Some(level) by {
                if j > start.len() {
                    let k = j - start.len() - 1;
                    assert(is_edge_entity(
                        now[start.len() + 1 + k],
                        LazyCollider { rect: rects@[k], builder: given[k], body_handle },
                        material,
                        level,
                    ));
                }
            }
        }
    }
}

} // verus!
