//! Shared data model of the editor/engine protocol: the plain enums and
//! records that both sides agree on.

use vstd::prelude::*;

verus! {

/// BevyForge protocol version. Bumped whenever a message type changes meaning.
pub const PROTOCOL_VERSION: u32 = 3;

/// Default TCP port the runtime listens on when none is requested.
pub const DEFAULT_PORT: u16 = 48470;

/// Entity handle as seen across the process boundary.
pub type EntityId = u64;

/// Sentinel for "no entity".
pub const NO_ENTITY: EntityId = 0xffff_ffff_ffff_ffffu64;

/// Primitive mesh shapes the runtime can spawn directly.
#[derive(Debug, Clone, Copy, PartialEq, Eq, Structural)]
pub enum MeshPrimitive {
    Cube,
    Sphere,
    Icosphere,
    Capsule,
    Cylinder,
    Cone,
    Plane,
    Torus,
}

/// Menu name of a mesh primitive.
pub open spec fn mesh_primitive_label(p: MeshPrimitive) -> Seq<char> {
    match p {
        MeshPrimitive::Cube => "Cube"@,
        MeshPrimitive::Sphere => "Sphere"@,
        MeshPrimitive::Icosphere => "Icosphere"@,
        MeshPrimitive::Capsule => "Capsule"@,
        MeshPrimitive::Cylinder => "Cylinder"@,
        MeshPrimitive::Cone => "Cone"@,
        MeshPrimitive::Plane => "Plane"@,
        MeshPrimitive::Torus => "Torus"@,
    }
}

impl MeshPrimitive {
    /// Human readable name shown in menus.
    pub fn label(self) -> (r: &'static str)
        ensures
            r@ == mesh_primitive_label(self),
    {
        match self {
            MeshPrimitive::Cube => "Cube",
            MeshPrimitive::Sphere => "Sphere",
            MeshPrimitive::Icosphere => "Icosphere",
            MeshPrimitive::Capsule => "Capsule",
            MeshPrimitive::Cylinder => "Cylinder",
            MeshPrimitive::Cone => "Cone",
            MeshPrimitive::Plane => "Plane",
            MeshPrimitive::Torus => "Torus",
        }
    }
}


/// What the `GameObject` menu can spawn.
#[derive(Debug, Clone, Copy, PartialEq, Eq, Structural)]
pub enum EntityKind {
    /// Bare entity with only a name.
    Empty,
    /// Mesh primitive with a default material.
    Mesh(MeshPrimitive),
    /// Perspective 3D camera.
    Camera,
    /// Directional "sun" light.
    DirectionalLight,
    /// Omni point light.
    PointLight,
    /// Cone spot light.
    SpotLight,
    /// Gameplay prefab: capsule mesh with player, controller, health and
    /// inventory script components.
    PlayerPrefab,
}

/// Menu name of a spawnable entity kind.
pub open spec fn entity_kind_label(k: EntityKind) -> Seq<char> {
    match k {
        EntityKind::Empty => "Empty Entity"@,
        EntityKind::Mesh(p) => mesh_primitive_label(p),
        EntityKind::Camera => "Camera"@,
        EntityKind::DirectionalLight => "Directional Light"@,
        EntityKind::PointLight => "Point Light"@,
        EntityKind::SpotLight => "Spot Light"@,
        EntityKind::PlayerPrefab => "Player Prefab"@,
    }
}

impl EntityKind {
    /// Menu name of this kind; a mesh is named after its primitive.
    pub fn label(self) -> (r: &'static str)
        ensures
            r@ == entity_kind_label(self),
    {
        match self {
            EntityKind::Empty => "Empty Entity",
            EntityKind::Mesh(p) => p.label(),
            EntityKind::Camera => "Camera",
            EntityKind::DirectionalLight => "Directional Light",
            EntityKind::PointLight => "Point Light",
            EntityKind::SpotLight => "Spot Light",
            EntityKind::PlayerPrefab => "Player Prefab",
        }
    }
}

/// Components the editor knows how to create and edit.
#[derive(Debug, Clone, Copy, PartialEq, Eq, Structural)]
pub enum ComponentKind {
    Transform,
    Visibility,
    Mesh,
    Material,
    Camera,
    DirectionalLight,
    PointLight,
    SpotLight,
    Rotator,
    Orbiter,
    LinearMover,
    PingPongMover,
    Player,
    CharacterController,
    Health,
    Inventory,
}

/// Inspector header of a component kind.
pub open spec fn component_kind_label(k: ComponentKind) -> Seq<char> {
    match k {
        ComponentKind::Transform => "Transform"@,
        ComponentKind::Visibility => "Visibility"@,
        ComponentKind::Mesh => "Mesh"@,
        ComponentKind::Material => "Material"@,
        ComponentKind::Camera => "Camera"@,
        ComponentKind::DirectionalLight => "Directional Light"@,
        ComponentKind::PointLight => "Point Light"@,
        ComponentKind::SpotLight => "Spot Light"@,
        ComponentKind::Rotator => "Rotator"@,
        ComponentKind::Orbiter => "Orbiter"@,
        ComponentKind::LinearMover => "LinearMover"@,
        ComponentKind::PingPongMover => "PingPongMover"@,
        ComponentKind::Player => "Player"@,
        ComponentKind::CharacterController => "CharacterController"@,
        ComponentKind::Health => "Health"@,
        ComponentKind::Inventory => "Inventory"@,
    }
}

impl ComponentKind {
    /// Inspector header of a component kind.
    pub fn label(self) -> (r: &'static str)
        ensures
            r@ == component_kind_label(self),
    {
        match self {
            ComponentKind::Transform => "Transform",
            ComponentKind::Visibility => "Visibility",
            ComponentKind::Mesh => "Mesh",
            ComponentKind::Material => "Material",
            ComponentKind::Camera => "Camera",
            ComponentKind::DirectionalLight => "Directional Light",
            ComponentKind::PointLight => "Point Light",
            ComponentKind::SpotLight => "Spot Light",
            ComponentKind::Rotator => "Rotator",
            ComponentKind::Orbiter => "Orbiter",
            ComponentKind::LinearMover => "LinearMover",
            ComponentKind::PingPongMover => "PingPongMover",
            ComponentKind::Player => "Player",
            ComponentKind::CharacterController => "CharacterController",
            ComponentKind::Health => "Health",
            ComponentKind::Inventory => "Inventory",
        }
    }
}

/// The components offered in the `+ Add Component` menu, in menu order:
/// every gameplay script component.
pub open spec fn addable_components_spec() -> Seq<ComponentKind> {
    seq![
        ComponentKind::Rotator,
        ComponentKind::Orbiter,
        ComponentKind::LinearMover,
        ComponentKind::PingPongMover,
        ComponentKind::Player,
        ComponentKind::CharacterController,
        ComponentKind::Health,
        ComponentKind::Inventory,
    ]
}

/// The components offered in the `+ Add Component` menu.
pub fn addable_components() -> (r: Vec<ComponentKind>)
    ensures
        r@ == addable_components_spec(),
{
    let r = vec![
        ComponentKind::Rotator,
        ComponentKind::Orbiter,
        ComponentKind::LinearMover,
        ComponentKind::PingPongMover,
        ComponentKind::Player,
        ComponentKind::CharacterController,
        ComponentKind::Health,
        ComponentKind::Inventory,
    ];
    assert(r@ =~= addable_components_spec());
    r
}

/// Every mesh primitive, in menu order.
pub open spec fn all_mesh_primitives_spec() -> Seq<MeshPrimitive> {
    seq![
        MeshPrimitive::Cube,
        MeshPrimitive::Sphere,
        MeshPrimitive::Icosphere,
        MeshPrimitive::Capsule,
        MeshPrimitive::Cylinder,
        MeshPrimitive::Cone,
        MeshPrimitive::Plane,
        MeshPrimitive::Torus,
    ]
}

/// Every mesh primitive, in menu order.
pub fn all_mesh_primitives() -> (r: Vec<MeshPrimitive>)
    ensures
        r@ == all_mesh_primitives_spec(),
{
    let r = vec![
        MeshPrimitive::Cube,
        MeshPrimitive::Sphere,
        MeshPrimitive::Icosphere,
        MeshPrimitive::Capsule,
        MeshPrimitive::Cylinder,
        MeshPrimitive::Cone,
        MeshPrimitive::Plane,
        MeshPrimitive::Torus,
    ];
    assert(r@ =~= all_mesh_primitives_spec());
    r
}

/// A single editable field path inside a component.
#[derive(Debug, Clone, Copy, PartialEq, Eq, Structural)]
pub enum ComponentField {
    Translation,
    RotationEulerDeg,
    Scale,
    EntityVisible,
    InheritedVisible,
    MeshPrimitiveKind,
    BaseColor,
    Metallic,
    Roughness,
    Emissive,
    FovDeg,
    CameraHdr,
    SunColor,
    SunIlluminance,
    SunShadows,
    LightColor,
    LightIntensity,
    LightRadius,
    LightRange,
    LightOuterAngleDeg,
    LightShadows,
    RotatorSpeed,
    OrbiterCenter,
    OrbiterRadius,
    OrbiterSpeed,
    MoverVelocity,
    MoverPingPong,
    PingPongOffset,
    PingPongPeriod,
    PlayerSpeed,
    PlayerJumpForce,
    PlayerSprintMultiplier,
    CcHeight,
    CcRadius,
    CcStepOffset,
    CcSlopeLimit,
    HealthCurrent,
    HealthMax,
    InventorySlots,
}

/// Hierarchy icon hint computed from component presence.
#[derive(Debug, Clone, Copy, PartialEq, Eq, Structural)]
pub enum NodeIcon {
    Camera,
    Light,
    Mesh,
    Player,
    Script,
    Group,
    Environment,
}

/// One node of the flattened scene tree.
#[derive(Debug, Clone)]
pub struct HierNode {
    pub id: EntityId,
    pub name: String,
    pub icon: NodeIcon,
    pub visible: bool,
    pub locked: bool,
    pub has_children: bool,
    pub depth: u32,
    /// True when this entity is the current selection.
    pub selected: bool,
}

/// A log record shown in the console panel.
#[derive(Debug, Clone)]
pub struct LogEntry {
    pub level: LogLevel,
    /// "12:45:10" style timestamp.
    pub time: String,
    pub target: String,
    pub message: String,
}

/// Severity of a log record.
#[derive(Debug, Clone, Copy, PartialEq, Eq, Structural)]
pub enum LogLevel {
    Info,
    Warn,
    Error,
    Debug,
    Trace,
}

/// Tag as rendered in the console panel, e.g. `INFO`.
pub open spec fn log_level_tag(k: LogLevel) -> Seq<char> {
    match k {
        LogLevel::Info => "INFO"@,
        LogLevel::Warn => "WARN"@,
        LogLevel::Error => "ERROR"@,
        LogLevel::Debug => "DEBUG"@,
        LogLevel::Trace => "TRACE"@,
    }
}

impl LogLevel {
    /// Tag as rendered in the console panel, e.g. `INFO`.
    pub fn tag(self) -> (r: &'static str)
        ensures
            r@ == log_level_tag(self),
    {
        match self {
            LogLevel::Info => "INFO",
            LogLevel::Warn => "WARN",
            LogLevel::Error => "ERROR",
            LogLevel::Debug => "DEBUG",
            LogLevel::Trace => "TRACE",
        }
    }
}

/// Editor-authored transform keyframe track.
#[derive(Debug, Clone, Copy, PartialEq, Eq, Hash, Structural)]
pub enum AnimTrack {
    Translation,
    Rotation,
    Scale,
}

/// Timeline row name of a track.
pub open spec fn anim_track_label(k: AnimTrack) -> Seq<char> {
    match k {
        AnimTrack::Translation => "Position"@,
        AnimTrack::Rotation => "Rotation"@,
        AnimTrack::Scale => "Scale"@,
    }
}

impl AnimTrack {
    /// Timeline row name of a track.
    pub fn label(self) -> (r: &'static str)
        ensures
            r@ == anim_track_label(self),
    {
        match self {
            AnimTrack::Translation => "Position",
            AnimTrack::Rotation => "Rotation",
            AnimTrack::Scale => "Scale",
        }
    }
}

/// Tonemapping operators exposed by the engine renderer.
#[derive(Debug, Clone, Copy, PartialEq, Eq, Structural)]
pub enum TonemappingKind {
    Linear,
    Reinhard,
    AcesFitted,
    AgX,
    TonyMcMapface,
    BlenderFilmic,
}

/// Lighting-panel name of a tonemapping operator.
pub open spec fn tonemapping_label(k: TonemappingKind) -> Seq<char> {
    match k {
        TonemappingKind::Linear => "None (Linear)"@,
        TonemappingKind::Reinhard => "Reinhard"@,
        TonemappingKind::AcesFitted => "ACES Fitted"@,
        TonemappingKind::AgX => "AgX"@,
        TonemappingKind::TonyMcMapface => "Tony McMapface"@,
        TonemappingKind::BlenderFilmic => "Blender Filmic"@,
    }
}

impl TonemappingKind {
    /// Lighting-panel name of a tonemapping operator.
    pub fn label(self) -> (r: &'static str)
        ensures
            r@ == tonemapping_label(self),
    {
        match self {
            TonemappingKind::Linear => "None (Linear)",
            TonemappingKind::Reinhard => "Reinhard",
            TonemappingKind::AcesFitted => "ACES Fitted",
            TonemappingKind::AgX => "AgX",
            TonemappingKind::TonyMcMapface => "Tony McMapface",
            TonemappingKind::BlenderFilmic => "Blender Filmic",
        }
    }
}

/// Every tonemapping operator, in menu order.
pub open spec fn all_tonemappings_spec() -> Seq<TonemappingKind> {
    seq![
        TonemappingKind::Linear,
        TonemappingKind::Reinhard,
        TonemappingKind::AcesFitted,
        TonemappingKind::AgX,
        TonemappingKind::TonyMcMapface,
        TonemappingKind::BlenderFilmic,
    ]
}

/// Every tonemapping operator, in menu order.
pub fn all_tonemappings() -> (r: Vec<TonemappingKind>)
    ensures
        r@ == all_tonemappings_spec(),
{
    let r = vec![
        TonemappingKind::Linear,
        TonemappingKind::Reinhard,
        TonemappingKind::AcesFitted,
        TonemappingKind::AgX,
        TonemappingKind::TonyMcMapface,
        TonemappingKind::BlenderFilmic,
    ];
    assert(r@ =~= all_tonemappings_spec());
    r
}

} // verus!
