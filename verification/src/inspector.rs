//! The inspector's layout: which rows each component shows, with their
//! labels and units, and which components an entity of the scene document
//! shows, in order. The values themselves come from the entity.

use vstd::prelude::*;
use crate::ipc::{ComponentKind, EntityKind, MeshPrimitive};
use crate::ipc::ComponentField;
use crate::scene::{adds_component, removes_component, script_of_component, script_of_component_spec, SceneEntityKind, ScriptKind};

verus! {

/// One inspector row: the field it edits, its label and its unit.
#[derive(Debug, Clone, Copy, PartialEq, Eq)]
pub struct RowLabel {
    pub field: ComponentField,
    pub label: &'static str,
    pub unit: Option<&'static str>,
}

/// The facts of a row, as values.
pub struct RowSpec {
    pub field: ComponentField,
    pub label: Seq<char>,
    pub unit: Option<Seq<char>>,
}

/// The facts of a row.
pub open spec fn row_spec(r: RowLabel) -> RowSpec {
    RowSpec { field: r.field, label: r.label@, unit: match r.unit { Some(u) => Some(u@), None => None } }
}

/// The rows a component shows, in order.
pub open spec fn rows_spec(k: ComponentKind) -> Seq<RowSpec> {
    match k {
        ComponentKind::Transform => seq![RowSpec { field: ComponentField::Translation, label: "Translation"@, unit: None }, RowSpec { field: ComponentField::RotationEulerDeg, label: "Rotation"@, unit: Some("deg"@) }, RowSpec { field: ComponentField::Scale, label: "Scale"@, unit: None }],
        ComponentKind::Visibility => seq![RowSpec { field: ComponentField::EntityVisible, label: "Visible"@, unit: None }],
        ComponentKind::Mesh => seq![RowSpec { field: ComponentField::MeshPrimitiveKind, label: "Primitive"@, unit: None }],
        ComponentKind::Material => seq![RowSpec { field: ComponentField::BaseColor, label: "Base Color"@, unit: None }, RowSpec { field: ComponentField::Metallic, label: "Metallic"@, unit: None }, RowSpec { field: ComponentField::Roughness, label: "Roughness"@, unit: None }, RowSpec { field: ComponentField::Emissive, label: "Emissive"@, unit: None }],
        ComponentKind::Camera => seq![RowSpec { field: ComponentField::FovDeg, label: "FOV"@, unit: Some("deg"@) }, RowSpec { field: ComponentField::CameraHdr, label: "HDR"@, unit: None }],
        ComponentKind::DirectionalLight => seq![RowSpec { field: ComponentField::SunColor, label: "Color"@, unit: None }, RowSpec { field: ComponentField::SunIlluminance, label: "Illuminance"@, unit: Some("lux"@) }, RowSpec { field: ComponentField::SunShadows, label: "Shadow Maps"@, unit: None }],
        ComponentKind::PointLight => seq![RowSpec { field: ComponentField::LightColor, label: "Color"@, unit: None }, RowSpec { field: ComponentField::LightIntensity, label: "Intensity"@, unit: Some("lm"@) }, RowSpec { field: ComponentField::LightRadius, label: "Radius"@, unit: None }, RowSpec { field: ComponentField::LightShadows, label: "Shadow Maps"@, unit: None }],
        ComponentKind::SpotLight => seq![RowSpec { field: ComponentField::LightColor, label: "Color"@, unit: None }, RowSpec { field: ComponentField::LightIntensity, label: "Intensity"@, unit: Some("lm"@) }, RowSpec { field: ComponentField::LightRange, label: "Range"@, unit: None }, RowSpec { field: ComponentField::LightOuterAngleDeg, label: "Outer Angle"@, unit: Some("deg"@) }, RowSpec { field: ComponentField::LightShadows, label: "Shadow Maps"@, unit: None }],
        ComponentKind::Rotator => seq![RowSpec { field: ComponentField::RotatorSpeed, label: "Speed (rad/s)"@, unit: None }],
        ComponentKind::Orbiter => seq![RowSpec { field: ComponentField::OrbiterCenter, label: "Center"@, unit: None }, RowSpec { field: ComponentField::OrbiterRadius, label: "Radius"@, unit: None }, RowSpec { field: ComponentField::OrbiterSpeed, label: "Speed"@, unit: Some("rad/s"@) }],
        ComponentKind::LinearMover => seq![RowSpec { field: ComponentField::MoverVelocity, label: "Velocity"@, unit: None }, RowSpec { field: ComponentField::MoverPingPong, label: "Ping Pong"@, unit: None }],
        ComponentKind::PingPongMover => seq![RowSpec { field: ComponentField::PingPongOffset, label: "Offset"@, unit: None }, RowSpec { field: ComponentField::PingPongPeriod, label: "Period"@, unit: Some("s"@) }],
        ComponentKind::Player => seq![RowSpec { field: ComponentField::PlayerSpeed, label: "speed"@, unit: None }, RowSpec { field: ComponentField::PlayerJumpForce, label: "jump_force"@, unit: None }, RowSpec { field: ComponentField::PlayerSprintMultiplier, label: "sprint_multiplier"@, unit: None }],
        ComponentKind::CharacterController => seq![RowSpec { field: ComponentField::CcHeight, label: "height"@, unit: None }, RowSpec { field: ComponentField::CcRadius, label: "radius"@, unit: None }, RowSpec { field: ComponentField::CcStepOffset, label: "step_offset"@, unit: None }, RowSpec { field: ComponentField::CcSlopeLimit, label: "slope_limit"@, unit: Some("deg"@) }],
        ComponentKind::Health => seq![RowSpec { field: ComponentField::HealthCurrent, label: "current"@, unit: None }, RowSpec { field: ComponentField::HealthMax, label: "max"@, unit: None }],
        ComponentKind::Inventory => seq![RowSpec { field: ComponentField::InventorySlots, label: "slots"@, unit: None }],
    }
}

/// The rows component `k` shows, in order (see [`rows_spec`]).
pub fn rows_of(k: ComponentKind) -> (r: Vec<RowLabel>)
    ensures
        r@.map_values(|x: RowLabel| row_spec(x)) == rows_spec(k),
{
    let r = match k {
        ComponentKind::Transform => vec![RowLabel { field: ComponentField::Translation, label: "Translation", unit: None }, RowLabel { field: ComponentField::RotationEulerDeg, label: "Rotation", unit: Some("deg") }, RowLabel { field: ComponentField::Scale, label: "Scale", unit: None }],
        ComponentKind::Visibility => vec![RowLabel { field: ComponentField::EntityVisible, label: "Visible", unit: None }],
        ComponentKind::Mesh => vec![RowLabel { field: ComponentField::MeshPrimitiveKind, label: "Primitive", unit: None }],
        ComponentKind::Material => vec![RowLabel { field: ComponentField::BaseColor, label: "Base Color", unit: None }, RowLabel { field: ComponentField::Metallic, label: "Metallic", unit: None }, RowLabel { field: ComponentField::Roughness, label: "Roughness", unit: None }, RowLabel { field: ComponentField::Emissive, label: "Emissive", unit: None }],
        ComponentKind::Camera => vec![RowLabel { field: ComponentField::FovDeg, label: "FOV", unit: Some("deg") }, RowLabel { field: ComponentField::CameraHdr, label: "HDR", unit: None }],
        ComponentKind::DirectionalLight => vec![RowLabel { field: ComponentField::SunColor, label: "Color", unit: None }, RowLabel { field: ComponentField::SunIlluminance, label: "Illuminance", unit: Some("lux") }, RowLabel { field: ComponentField::SunShadows, label: "Shadow Maps", unit: None }],
        ComponentKind::PointLight => vec![RowLabel { field: ComponentField::LightColor, label: "Color", unit: None }, RowLabel { field: ComponentField::LightIntensity, label: "Intensity", unit: Some("lm") }, RowLabel { field: ComponentField::LightRadius, label: "Radius", unit: None }, RowLabel { field: ComponentField::LightShadows, label: "Shadow Maps", unit: None }],
        ComponentKind::SpotLight => vec![RowLabel { field: ComponentField::LightColor, label: "Color", unit: None }, RowLabel { field: ComponentField::LightIntensity, label: "Intensity", unit: Some("lm") }, RowLabel { field: ComponentField::LightRange, label: "Range", unit: None }, RowLabel { field: ComponentField::LightOuterAngleDeg, label: "Outer Angle", unit: Some("deg") }, RowLabel { field: ComponentField::LightShadows, label: "Shadow Maps", unit: None }],
        ComponentKind::Rotator => vec![RowLabel { field: ComponentField::RotatorSpeed, label: "Speed (rad/s)", unit: None }],
        ComponentKind::Orbiter => vec![RowLabel { field: ComponentField::OrbiterCenter, label: "Center", unit: None }, RowLabel { field: ComponentField::OrbiterRadius, label: "Radius", unit: None }, RowLabel { field: ComponentField::OrbiterSpeed, label: "Speed", unit: Some("rad/s") }],
        ComponentKind::LinearMover => vec![RowLabel { field: ComponentField::MoverVelocity, label: "Velocity", unit: None }, RowLabel { field: ComponentField::MoverPingPong, label: "Ping Pong", unit: None }],
        ComponentKind::PingPongMover => vec![RowLabel { field: ComponentField::PingPongOffset, label: "Offset", unit: None }, RowLabel { field: ComponentField::PingPongPeriod, label: "Period", unit: Some("s") }],
        ComponentKind::Player => vec![RowLabel { field: ComponentField::PlayerSpeed, label: "speed", unit: None }, RowLabel { field: ComponentField::PlayerJumpForce, label: "jump_force", unit: None }, RowLabel { field: ComponentField::PlayerSprintMultiplier, label: "sprint_multiplier", unit: None }],
        ComponentKind::CharacterController => vec![RowLabel { field: ComponentField::CcHeight, label: "height", unit: None }, RowLabel { field: ComponentField::CcRadius, label: "radius", unit: None }, RowLabel { field: ComponentField::CcStepOffset, label: "step_offset", unit: None }, RowLabel { field: ComponentField::CcSlopeLimit, label: "slope_limit", unit: Some("deg") }],
        ComponentKind::Health => vec![RowLabel { field: ComponentField::HealthCurrent, label: "current", unit: None }, RowLabel { field: ComponentField::HealthMax, label: "max", unit: None }],
        ComponentKind::Inventory => vec![RowLabel { field: ComponentField::InventorySlots, label: "slots", unit: None }],
    };
    assert(r@.map_values(|x: RowLabel| row_spec(x)) =~= rows_spec(k));
    r
}

/// The light an entity carries, by kind.
#[derive(Debug, Clone, Copy, PartialEq, Eq, Structural)]
pub enum LightKind {
    Directional,
    Point,
    Spot,
}

/// What a freshly created entity carries, apart from its numbers: its kind,
/// whether it has a material and a camera, its light and its scripts.
#[derive(Debug, Clone)]
pub struct EntityShape {
    pub kind: SceneEntityKind,
    pub material: bool,
    pub camera: bool,
    pub light: Option<LightKind>,
    pub scripts: Vec<ScriptKind>,
}

/// The shape of a new entity of kind `k`: a mesh gets a material; a camera
/// its camera; each light kind its light; the player prefab is a capsule
/// mesh with a material and the player, character controller, health and
/// inventory scripts.
pub open spec fn shape_spec(k: EntityKind) -> (SceneEntityKind, bool, bool, Option<LightKind>, Seq<ScriptKind>) {
    match k {
        EntityKind::Empty => (SceneEntityKind::Empty, false, false, None, Seq::empty()),
        EntityKind::Mesh(p) => (SceneEntityKind::Mesh(p), true, false, None, Seq::empty()),
        EntityKind::Camera => (SceneEntityKind::Camera, false, true, None, Seq::empty()),
        EntityKind::DirectionalLight => (SceneEntityKind::DirectionalLight, false, false, Some(LightKind::Directional), Seq::empty()),
        EntityKind::PointLight => (SceneEntityKind::PointLight, false, false, Some(LightKind::Point), Seq::empty()),
        EntityKind::SpotLight => (SceneEntityKind::SpotLight, false, false, Some(LightKind::Spot), Seq::empty()),
        EntityKind::PlayerPrefab => (
            SceneEntityKind::Mesh(MeshPrimitive::Capsule),
            true,
            false,
            None,
            seq![ScriptKind::Player, ScriptKind::CharacterController, ScriptKind::Health, ScriptKind::Inventory],
        ),
    }
}

/// The shape of a new entity of kind `k` (see [`shape_spec`]).
pub fn shape_of(k: EntityKind) -> (r: EntityShape)
    ensures
        (r.kind, r.material, r.camera, r.light, r.scripts@) == shape_spec(k),
{
    match k {
        EntityKind::Empty => EntityShape { kind: SceneEntityKind::Empty, material: false, camera: false, light: None, scripts: Vec::new() },
        EntityKind::Mesh(p) => EntityShape { kind: SceneEntityKind::Mesh(p), material: true, camera: false, light: None, scripts: Vec::new() },
        EntityKind::Camera => EntityShape { kind: SceneEntityKind::Camera, material: false, camera: true, light: None, scripts: Vec::new() },
        EntityKind::DirectionalLight => EntityShape {
            kind: SceneEntityKind::DirectionalLight, material: false, camera: false, light: Some(LightKind::Directional), scripts: Vec::new(),
        },
        EntityKind::PointLight => EntityShape {
            kind: SceneEntityKind::PointLight, material: false, camera: false, light: Some(LightKind::Point), scripts: Vec::new(),
        },
        EntityKind::SpotLight => EntityShape {
            kind: SceneEntityKind::SpotLight, material: false, camera: false, light: Some(LightKind::Spot), scripts: Vec::new(),
        },
        EntityKind::PlayerPrefab => {
            let scripts = vec![ScriptKind::Player, ScriptKind::CharacterController, ScriptKind::Health, ScriptKind::Inventory];
            assert(scripts@ =~= seq![ScriptKind::Player, ScriptKind::CharacterController, ScriptKind::Health, ScriptKind::Inventory]);
            EntityShape { kind: SceneEntityKind::Mesh(MeshPrimitive::Capsule), material: true, camera: false, light: None, scripts }
        },
    }
}

/// The component of a script.
pub open spec fn script_component_spec(s: ScriptKind) -> ComponentKind {
    match s {
        ScriptKind::Rotator => ComponentKind::Rotator,
        ScriptKind::Orbiter => ComponentKind::Orbiter,
        ScriptKind::LinearMover => ComponentKind::LinearMover,
        ScriptKind::PingPongMover => ComponentKind::PingPongMover,
        ScriptKind::Player => ComponentKind::Player,
        ScriptKind::CharacterController => ComponentKind::CharacterController,
        ScriptKind::Health => ComponentKind::Health,
        ScriptKind::Inventory => ComponentKind::Inventory,
    }
}

/// The component of a script.
pub fn script_component(s: ScriptKind) -> (c: ComponentKind)
    ensures
        c == script_component_spec(s),
{
    match s {
        ScriptKind::Rotator => ComponentKind::Rotator,
        ScriptKind::Orbiter => ComponentKind::Orbiter,
        ScriptKind::LinearMover => ComponentKind::LinearMover,
        ScriptKind::PingPongMover => ComponentKind::PingPongMover,
        ScriptKind::Player => ComponentKind::Player,
        ScriptKind::CharacterController => ComponentKind::CharacterController,
        ScriptKind::Health => ComponentKind::Health,
        ScriptKind::Inventory => ComponentKind::Inventory,
    }
}

/// The components an entity shows in the inspector, in order: transform and
/// visibility always; the mesh for a mesh entity; the material, camera and
/// light when present; then one component per script, in script order.
pub open spec fn shown_spec(
    kind: SceneEntityKind,
    has_material: bool,
    has_camera: bool,
    light: Option<LightKind>,
    scripts: Seq<ScriptKind>,
) -> Seq<ComponentKind> {
    seq![ComponentKind::Transform, ComponentKind::Visibility]
        + (if kind is Mesh { seq![ComponentKind::Mesh] } else { Seq::empty() })
        + (if has_material { seq![ComponentKind::Material] } else { Seq::empty() })
        + (if has_camera { seq![ComponentKind::Camera] } else { Seq::empty() })
        + match light {
            Some(LightKind::Directional) => seq![ComponentKind::DirectionalLight],
            Some(LightKind::Point) => seq![ComponentKind::PointLight],
            Some(LightKind::Spot) => seq![ComponentKind::SpotLight],
            None => Seq::empty(),
        }
        + scripts.map_values(|s: ScriptKind| script_component_spec(s))
}

/// The components an entity shows in the inspector (see [`shown_spec`]).
pub fn components_shown(
    kind: SceneEntityKind,
    has_material: bool,
    has_camera: bool,
    light: Option<LightKind>,
    scripts: &Vec<ScriptKind>,
) -> (r: Vec<ComponentKind>)
    ensures
        r@ == shown_spec(kind, has_material, has_camera, light, scripts@),
{
    let mut r: Vec<ComponentKind> = Vec::new();
    r.push(ComponentKind::Transform);
    r.push(ComponentKind::Visibility);
    if let SceneEntityKind::Mesh(_) = kind {
        r.push(ComponentKind::Mesh);
    }
    if has_material {
        r.push(ComponentKind::Material);
    }
    if has_camera {
        r.push(ComponentKind::Camera);
    }
    match light {
        Some(LightKind::Directional) => r.push(ComponentKind::DirectionalLight),
        Some(LightKind::Point) => r.push(ComponentKind::PointLight),
        Some(LightKind::Spot) => r.push(ComponentKind::SpotLight),
        None => {},
    }
    let ghost head = r@;
    let n = scripts.len();
    let mut i: usize = 0;
    while i < n
        invariant
            n == scripts@.len(),
            i <= n,
            r@ == head + scripts@.subrange(0, i as int).map_values(|s: ScriptKind| script_component_spec(s)),
        decreases n - i,
    {
        r.push(script_component(scripts[i]));
        i = i + 1;
        assert(r@ =~= head + scripts@.subrange(0, i as int).map_values(|s: ScriptKind| script_component_spec(s)));
    }
    assert(scripts@.subrange(0, n as int) =~= scripts@);
    assert(r@ =~= shown_spec(kind, has_material, has_camera, light, scripts@));
    r
}


/// The type of the value an inspector edit carries.
#[derive(Debug, Clone, Copy, PartialEq, Eq, Structural)]
pub enum ValueType {
    Vec3,
    F32,
    U32,
    Bool,
    Rgba,
    Mesh,
    Text,
}

/// Where an inspector edit lands in an entity.
#[derive(Debug, Clone, Copy, PartialEq, Eq, Structural)]
pub enum FieldSlot {
    Translation,
    Rotation,
    Scale,
    /// The visibility flag: set exactly when the value is `true`.
    Visible,
    MeshKind,
    BaseColor,
    Metallic,
    Roughness,
    Emissive,
    CameraFov,
    SunColor,
    SunIlluminance,
    SunShadows,
    LightColor,
    LightIntensity,
    LightRadius,
    LightRange,
    LightOuterAngle,
    LightShadows,
    /// The parameter named by the field, in every script of this kind.
    ScriptParam(ScriptKind),
}

/// How a number written into a slot is bounded.
#[derive(Debug, Clone, Copy, PartialEq, Eq, Structural)]
pub enum Bound {
    /// Written as given.
    Unbounded,
    /// Clamped to 0 ..= 1.
    UnitInterval,
    /// Clamped to 1 ..= 150 (degrees of field of view).
    FieldOfView,
    /// Clamped to 1 ..= 89 (degrees of a spot light's cone).
    ConeAngle,
    /// Raised to 0 when negative.
    NonNegative,
}

/// The type of value a script parameter takes, when `f` is a parameter of
/// scripts of kind `k`.
pub open spec fn script_param_spec(k: ScriptKind, f: ComponentField) -> Option<ValueType> {
    match (k, f) {
        (ScriptKind::Rotator, ComponentField::RotatorSpeed) => Some(ValueType::Vec3),
        (ScriptKind::Orbiter, ComponentField::OrbiterCenter) => Some(ValueType::Vec3),
        (ScriptKind::Orbiter, ComponentField::OrbiterRadius) => Some(ValueType::F32),
        (ScriptKind::Orbiter, ComponentField::OrbiterSpeed) => Some(ValueType::F32),
        (ScriptKind::LinearMover, ComponentField::MoverVelocity) => Some(ValueType::Vec3),
        (ScriptKind::LinearMover, ComponentField::MoverPingPong) => Some(ValueType::Bool),
        (ScriptKind::PingPongMover, ComponentField::PingPongOffset) => Some(ValueType::Vec3),
        (ScriptKind::PingPongMover, ComponentField::PingPongPeriod) => Some(ValueType::F32),
        (ScriptKind::Player, ComponentField::PlayerSpeed) => Some(ValueType::F32),
        (ScriptKind::Player, ComponentField::PlayerJumpForce) => Some(ValueType::F32),
        (ScriptKind::Player, ComponentField::PlayerSprintMultiplier) => Some(ValueType::F32),
        (ScriptKind::CharacterController, ComponentField::CcHeight) => Some(ValueType::F32),
        (ScriptKind::CharacterController, ComponentField::CcRadius) => Some(ValueType::F32),
        (ScriptKind::CharacterController, ComponentField::CcStepOffset) => Some(ValueType::F32),
        (ScriptKind::CharacterController, ComponentField::CcSlopeLimit) => Some(ValueType::F32),
        (ScriptKind::Health, ComponentField::HealthCurrent) => Some(ValueType::F32),
        (ScriptKind::Health, ComponentField::HealthMax) => Some(ValueType::F32),
        (ScriptKind::Inventory, ComponentField::InventorySlots) => Some(ValueType::U32),
        _ => None,
    }
}

/// The type of value a script parameter takes (see [`script_param_spec`]).
pub fn script_param(k: ScriptKind, f: ComponentField) -> (r: Option<ValueType>)
    ensures
        r == script_param_spec(k, f),
{
    match (k, f) {
        (ScriptKind::Rotator, ComponentField::RotatorSpeed) => Some(ValueType::Vec3),
        (ScriptKind::Orbiter, ComponentField::OrbiterCenter) => Some(ValueType::Vec3),
        (ScriptKind::Orbiter, ComponentField::OrbiterRadius) => Some(ValueType::F32),
        (ScriptKind::Orbiter, ComponentField::OrbiterSpeed) => Some(ValueType::F32),
        (ScriptKind::LinearMover, ComponentField::MoverVelocity) => Some(ValueType::Vec3),
        (ScriptKind::LinearMover, ComponentField::MoverPingPong) => Some(ValueType::Bool),
        (ScriptKind::PingPongMover, ComponentField::PingPongOffset) => Some(ValueType::Vec3),
        (ScriptKind::PingPongMover, ComponentField::PingPongPeriod) => Some(ValueType::F32),
        (ScriptKind::Player, ComponentField::PlayerSpeed) => Some(ValueType::F32),
        (ScriptKind::Player, ComponentField::PlayerJumpForce) => Some(ValueType::F32),
        (ScriptKind::Player, ComponentField::PlayerSprintMultiplier) => Some(ValueType::F32),
        (ScriptKind::CharacterController, ComponentField::CcHeight) => Some(ValueType::F32),
        (ScriptKind::CharacterController, ComponentField::CcRadius) => Some(ValueType::F32),
        (ScriptKind::CharacterController, ComponentField::CcStepOffset) => Some(ValueType::F32),
        (ScriptKind::CharacterController, ComponentField::CcSlopeLimit) => Some(ValueType::F32),
        (ScriptKind::Health, ComponentField::HealthCurrent) => Some(ValueType::F32),
        (ScriptKind::Health, ComponentField::HealthMax) => Some(ValueType::F32),
        (ScriptKind::Inventory, ComponentField::InventorySlots) => Some(ValueType::U32),
        _ => None,
    }
}

/// `slot` when the value has type `want`, else nothing.
pub open spec fn when_typed(v: ValueType, want: ValueType, slot: FieldSlot) -> Option<FieldSlot> {
    if v == want {
        Some(slot)
    } else {
        None
    }
}

/// Where an edit of `field` of `component` with a value of type `v` lands in
/// an entity that has a material (`has_material`), a camera (`has_camera`)
/// and a light of kind `light`. Nothing is written when the value has the
/// wrong type, when the entity lacks the component, or when the field does
/// not belong to it.
pub open spec fn field_slot_spec(
    component: ComponentKind,
    field: ComponentField,
    v: ValueType,
    has_material: bool,
    has_camera: bool,
    light: Option<LightKind>,
) -> Option<FieldSlot> {
    match (component, field) {
        (ComponentKind::Transform, ComponentField::Translation) => when_typed(v, ValueType::Vec3, FieldSlot::Translation),
        (ComponentKind::Transform, ComponentField::RotationEulerDeg) => when_typed(v, ValueType::Vec3, FieldSlot::Rotation),
        (ComponentKind::Transform, ComponentField::Scale) => when_typed(v, ValueType::Vec3, FieldSlot::Scale),
        (ComponentKind::Visibility, ComponentField::EntityVisible) => Some(FieldSlot::Visible),
        (ComponentKind::Mesh, ComponentField::MeshPrimitiveKind) => when_typed(v, ValueType::Mesh, FieldSlot::MeshKind),
        (ComponentKind::Material, _) => if !has_material {
            None
        } else {
            match field {
                ComponentField::BaseColor => when_typed(v, ValueType::Rgba, FieldSlot::BaseColor),
                ComponentField::Metallic => when_typed(v, ValueType::F32, FieldSlot::Metallic),
                ComponentField::Roughness => when_typed(v, ValueType::F32, FieldSlot::Roughness),
                ComponentField::Emissive => when_typed(v, ValueType::Rgba, FieldSlot::Emissive),
                _ => None,
            }
        },
        (ComponentKind::Camera, ComponentField::FovDeg) => if has_camera {
            when_typed(v, ValueType::F32, FieldSlot::CameraFov)
        } else {
            None
        },
        (ComponentKind::DirectionalLight, _) => if light != Some(LightKind::Directional) {
            None
        } else {
            match field {
                ComponentField::SunColor => when_typed(v, ValueType::Rgba, FieldSlot::SunColor),
                ComponentField::SunIlluminance => when_typed(v, ValueType::F32, FieldSlot::SunIlluminance),
                ComponentField::SunShadows => when_typed(v, ValueType::Bool, FieldSlot::SunShadows),
                _ => None,
            }
        },
        (ComponentKind::PointLight, _) => if light != Some(LightKind::Point) {
            None
        } else {
            match field {
                ComponentField::LightColor => when_typed(v, ValueType::Rgba, FieldSlot::LightColor),
                ComponentField::LightIntensity => when_typed(v, ValueType::F32, FieldSlot::LightIntensity),
                ComponentField::LightRadius => when_typed(v, ValueType::F32, FieldSlot::LightRadius),
                ComponentField::LightShadows => when_typed(v, ValueType::Bool, FieldSlot::LightShadows),
                _ => None,
            }
        },
        (ComponentKind::SpotLight, _) => if light != Some(LightKind::Spot) {
            None
        } else {
            match field {
                ComponentField::LightColor => when_typed(v, ValueType::Rgba, FieldSlot::LightColor),
                ComponentField::LightIntensity => when_typed(v, ValueType::F32, FieldSlot::LightIntensity),
                ComponentField::LightRange => when_typed(v, ValueType::F32, FieldSlot::LightRange),
                ComponentField::LightOuterAngleDeg => when_typed(v, ValueType::F32, FieldSlot::LightOuterAngle),
                ComponentField::LightShadows => when_typed(v, ValueType::Bool, FieldSlot::LightShadows),
                _ => None,
            }
        },
        _ => match script_of_component_spec(component) {
            Some(k) => if script_param_spec(k, field) == Some(v) {
                Some(FieldSlot::ScriptParam(k))
            } else {
                None
            },
            None => None,
        },
    }
}

/// `slot` when the value has type `want` (see [`when_typed`]).
fn typed(v: ValueType, want: ValueType, slot: FieldSlot) -> (r: Option<FieldSlot>)
    ensures
        r == when_typed(v, want, slot),
{
    if v == want {
        Some(slot)
    } else {
        None
    }
}

/// Where an inspector edit lands (see [`field_slot_spec`]).
pub fn field_slot(
    component: ComponentKind,
    field: ComponentField,
    v: ValueType,
    has_material: bool,
    has_camera: bool,
    light: Option<LightKind>,
) -> (r: Option<FieldSlot>)
    ensures
        r == field_slot_spec(component, field, v, has_material, has_camera, light),
{
    match (component, field) {
        (ComponentKind::Transform, ComponentField::Translation) => typed(v, ValueType::Vec3, FieldSlot::Translation),
        (ComponentKind::Transform, ComponentField::RotationEulerDeg) => typed(v, ValueType::Vec3, FieldSlot::Rotation),
        (ComponentKind::Transform, ComponentField::Scale) => typed(v, ValueType::Vec3, FieldSlot::Scale),
        (ComponentKind::Visibility, ComponentField::EntityVisible) => Some(FieldSlot::Visible),
        (ComponentKind::Mesh, ComponentField::MeshPrimitiveKind) => typed(v, ValueType::Mesh, FieldSlot::MeshKind),
        (ComponentKind::Material, _) => if !has_material {
            None
        } else {
            match field {
                ComponentField::BaseColor => typed(v, ValueType::Rgba, FieldSlot::BaseColor),
                ComponentField::Metallic => typed(v, ValueType::F32, FieldSlot::Metallic),
                ComponentField::Roughness => typed(v, ValueType::F32, FieldSlot::Roughness),
                ComponentField::Emissive => typed(v, ValueType::Rgba, FieldSlot::Emissive),
                _ => None,
            }
        },
        (ComponentKind::Camera, ComponentField::FovDeg) => if has_camera {
            typed(v, ValueType::F32, FieldSlot::CameraFov)
        } else {
            None
        },
        (ComponentKind::DirectionalLight, _) => if light != Some(LightKind::Directional) {
            None
        } else {
            match field {
                ComponentField::SunColor => typed(v, ValueType::Rgba, FieldSlot::SunColor),
                ComponentField::SunIlluminance => typed(v, ValueType::F32, FieldSlot::SunIlluminance),
                ComponentField::SunShadows => typed(v, ValueType::Bool, FieldSlot::SunShadows),
                _ => None,
            }
        },
        (ComponentKind::PointLight, _) => if light != Some(LightKind::Point) {
            None
        } else {
            match field {
                ComponentField::LightColor => typed(v, ValueType::Rgba, FieldSlot::LightColor),
                ComponentField::LightIntensity => typed(v, ValueType::F32, FieldSlot::LightIntensity),
                ComponentField::LightRadius => typed(v, ValueType::F32, FieldSlot::LightRadius),
                ComponentField::LightShadows => typed(v, ValueType::Bool, FieldSlot::LightShadows),
                _ => None,
            }
        },
        (ComponentKind::SpotLight, _) => if light != Some(LightKind::Spot) {
            None
        } else {
            match field {
                ComponentField::LightColor => typed(v, ValueType::Rgba, FieldSlot::LightColor),
                ComponentField::LightIntensity => typed(v, ValueType::F32, FieldSlot::LightIntensity),
                ComponentField::LightRange => typed(v, ValueType::F32, FieldSlot::LightRange),
                ComponentField::LightOuterAngleDeg => typed(v, ValueType::F32, FieldSlot::LightOuterAngle),
                ComponentField::LightShadows => typed(v, ValueType::Bool, FieldSlot::LightShadows),
                _ => None,
            }
        },
        _ => match script_of_component(component) {
            Some(k) => if script_param(k, field) == Some(v) {
                Some(FieldSlot::ScriptParam(k))
            } else {
                None
            },
            None => None,
        },
    }
}

/// How a number written into `slot` is bounded.
pub open spec fn slot_bound_spec(slot: FieldSlot) -> Bound {
    match slot {
        FieldSlot::Metallic | FieldSlot::Roughness => Bound::UnitInterval,
        FieldSlot::CameraFov => Bound::FieldOfView,
        FieldSlot::LightOuterAngle => Bound::ConeAngle,
        FieldSlot::SunIlluminance | FieldSlot::LightIntensity | FieldSlot::LightRadius | FieldSlot::LightRange => Bound::NonNegative,
        _ => Bound::Unbounded,
    }
}

/// How a number written into `slot` is bounded (see [`slot_bound_spec`]).
pub fn slot_bound(slot: FieldSlot) -> (r: Bound)
    ensures
        r == slot_bound_spec(slot),
{
    match slot {
        FieldSlot::Metallic | FieldSlot::Roughness => Bound::UnitInterval,
        FieldSlot::CameraFov => Bound::FieldOfView,
        FieldSlot::LightOuterAngle => Bound::ConeAngle,
        FieldSlot::SunIlluminance | FieldSlot::LightIntensity | FieldSlot::LightRadius | FieldSlot::LightRange => Bound::NonNegative,
        _ => Bound::Unbounded,
    }
}


/// The component field a slot holds (none for a script parameter, which
/// the field itself names).
pub open spec fn slot_field(slot: FieldSlot) -> Option<ComponentField> {
    match slot {
        FieldSlot::Translation => Some(ComponentField::Translation),
        FieldSlot::Rotation => Some(ComponentField::RotationEulerDeg),
        FieldSlot::Scale => Some(ComponentField::Scale),
        FieldSlot::Visible => Some(ComponentField::EntityVisible),
        FieldSlot::MeshKind => Some(ComponentField::MeshPrimitiveKind),
        FieldSlot::BaseColor => Some(ComponentField::BaseColor),
        FieldSlot::Metallic => Some(ComponentField::Metallic),
        FieldSlot::Roughness => Some(ComponentField::Roughness),
        FieldSlot::Emissive => Some(ComponentField::Emissive),
        FieldSlot::CameraFov => Some(ComponentField::FovDeg),
        FieldSlot::SunColor => Some(ComponentField::SunColor),
        FieldSlot::SunIlluminance => Some(ComponentField::SunIlluminance),
        FieldSlot::SunShadows => Some(ComponentField::SunShadows),
        FieldSlot::LightColor => Some(ComponentField::LightColor),
        FieldSlot::LightIntensity => Some(ComponentField::LightIntensity),
        FieldSlot::LightRadius => Some(ComponentField::LightRadius),
        FieldSlot::LightRange => Some(ComponentField::LightRange),
        FieldSlot::LightOuterAngle => Some(ComponentField::LightOuterAngleDeg),
        FieldSlot::LightShadows => Some(ComponentField::LightShadows),
        FieldSlot::ScriptParam(_) => None,
    }
}

/// The type of value a field holds.
pub open spec fn field_type(f: ComponentField) -> ValueType {
    match f {
        ComponentField::Translation | ComponentField::RotationEulerDeg | ComponentField::Scale => ValueType::Vec3,
        ComponentField::EntityVisible | ComponentField::InheritedVisible | ComponentField::CameraHdr => ValueType::Bool,
        ComponentField::SunShadows | ComponentField::LightShadows | ComponentField::MoverPingPong => ValueType::Bool,
        ComponentField::MeshPrimitiveKind => ValueType::Mesh,
        ComponentField::BaseColor | ComponentField::Emissive | ComponentField::SunColor | ComponentField::LightColor => ValueType::Rgba,
        ComponentField::RotatorSpeed | ComponentField::OrbiterCenter | ComponentField::MoverVelocity
            | ComponentField::PingPongOffset => ValueType::Vec3,
        ComponentField::InventorySlots => ValueType::U32,
        _ => ValueType::F32,
    }
}

/// The component a slot belongs to, as seen on the entity: the component
/// `c` an edit names owns `slot`.
pub open spec fn slot_in_component(slot: FieldSlot, c: ComponentKind) -> bool {
    match slot {
        FieldSlot::Translation | FieldSlot::Rotation | FieldSlot::Scale => c == ComponentKind::Transform,
        FieldSlot::Visible => c == ComponentKind::Visibility,
        FieldSlot::MeshKind => c == ComponentKind::Mesh,
        FieldSlot::BaseColor | FieldSlot::Metallic | FieldSlot::Roughness | FieldSlot::Emissive => c == ComponentKind::Material,
        FieldSlot::CameraFov => c == ComponentKind::Camera,
        FieldSlot::SunColor | FieldSlot::SunIlluminance | FieldSlot::SunShadows => c == ComponentKind::DirectionalLight,
        FieldSlot::LightColor | FieldSlot::LightIntensity | FieldSlot::LightShadows =>
            c == ComponentKind::PointLight || c == ComponentKind::SpotLight,
        FieldSlot::LightRadius => c == ComponentKind::PointLight,
        FieldSlot::LightRange | FieldSlot::LightOuterAngle => c == ComponentKind::SpotLight,
        FieldSlot::ScriptParam(k) => script_component_spec(k) == c,
    }
}

/// An inspector edit lands, if anywhere, in the slot of the very field it
/// edits, inside the component it names, and only with a value of that
/// field's type (the visibility flag takes any value: it is set exactly
/// when the value is `true`). A script parameter lands in the scripts of
/// the component's own kind.
pub proof fn lemma_edit_lands_in_its_field(
    c: ComponentKind,
    f: ComponentField,
    v: ValueType,
    has_material: bool,
    has_camera: bool,
    light: Option<LightKind>,
)
    ensures
        field_slot_spec(c, f, v, has_material, has_camera, light) matches Some(slot) ==> {
            &&& slot_in_component(slot, c)
            &&& (slot == FieldSlot::Visible || v == field_type(f))
            &&& match slot {
                FieldSlot::ScriptParam(k) => script_param_spec(k, f) is Some,
                _ => slot_field(slot) == Some(f),
            }
        },
{
}

/// An edit of a material field lands in that field's slot exactly when the
/// entity has a material and the value has the field's type; any other
/// field of a material lands nowhere.
pub proof fn lemma_material_edits(f: ComponentField, v: ValueType, has_material: bool, has_camera: bool, light: Option<LightKind>)
    ensures
        field_slot_spec(ComponentKind::Material, ComponentField::BaseColor, v, has_material, has_camera, light)
            == (if has_material && v == ValueType::Rgba { Some(FieldSlot::BaseColor) } else { None }),
        field_slot_spec(ComponentKind::Material, ComponentField::Metallic, v, has_material, has_camera, light)
            == (if has_material && v == ValueType::F32 { Some(FieldSlot::Metallic) } else { None }),
        field_slot_spec(ComponentKind::Material, ComponentField::Roughness, v, has_material, has_camera, light)
            == (if has_material && v == ValueType::F32 { Some(FieldSlot::Roughness) } else { None }),
        field_slot_spec(ComponentKind::Material, ComponentField::Emissive, v, has_material, has_camera, light)
            == (if has_material && v == ValueType::Rgba { Some(FieldSlot::Emissive) } else { None }),
        f != ComponentField::BaseColor && f != ComponentField::Metallic && f != ComponentField::Roughness
            && f != ComponentField::Emissive ==> field_slot_spec(ComponentKind::Material, f, v, has_material, has_camera, light) is None,
{
}

/// An edit of a light's field lands only when the entity carries a light of
/// the kind the component names. A number is bounded by the field it is
/// written to: metallic and roughness to 0 ..= 1, a camera's field of view to
/// 1 ..= 150 degrees, a spot cone to 1 ..= 89 degrees; illuminance,
/// intensities, radii and ranges are raised to 0; every other number is
/// written as given.
pub proof fn lemma_light_edits(
    c: ComponentKind,
    f: ComponentField,
    v: ValueType,
    has_material: bool,
    has_camera: bool,
    light: Option<LightKind>,
)
    ensures
        c == ComponentKind::DirectionalLight && light != Some(LightKind::Directional)
            ==> field_slot_spec(c, f, v, has_material, has_camera, light) is None,
        c == ComponentKind::PointLight && light != Some(LightKind::Point)
            ==> field_slot_spec(c, f, v, has_material, has_camera, light) is None,
        c == ComponentKind::SpotLight && light != Some(LightKind::Spot)
            ==> field_slot_spec(c, f, v, has_material, has_camera, light) is None,
        field_slot_spec(c, f, v, has_material, has_camera, light) matches Some(slot) ==> slot_bound_spec(slot) == (
            if f == ComponentField::Metallic || f == ComponentField::Roughness {
                Bound::UnitInterval
            } else if f == ComponentField::FovDeg {
                Bound::FieldOfView
            } else if f == ComponentField::LightOuterAngleDeg {
                Bound::ConeAngle
            } else if f == ComponentField::SunIlluminance || f == ComponentField::LightIntensity
                || f == ComponentField::LightRadius || f == ComponentField::LightRange {
                Bound::NonNegative
            } else {
                Bound::Unbounded
            }),
{
}


/// What a new entity carries follows from what it is: a light entity
/// carries a light of its own kind (a sun a directional light, a point
/// light a point light, a spot light a spot light) and nothing else does; a
/// camera entity, and only it, has a camera; every mesh entity, and only a
/// mesh, has a material. Each kind of the menu becomes the entity of that
/// kind (the player prefab a capsule mesh), and the inspector of a new
/// light shows its light component.
pub proof fn lemma_new_entity_carries_its_parts(k: EntityKind)
    ensures
        ({
            let (kind, material, camera, light, scripts) = shape_spec(k);
            &&& light == match kind {
                SceneEntityKind::DirectionalLight => Some(LightKind::Directional),
                SceneEntityKind::PointLight => Some(LightKind::Point),
                SceneEntityKind::SpotLight => Some(LightKind::Spot),
                _ => None,
            }
            &&& camera == (kind == SceneEntityKind::Camera)
            &&& material == (kind is Mesh)
            &&& (k != EntityKind::PlayerPrefab ==> scripts.len() == 0)
            &&& (k == EntityKind::PlayerPrefab ==> scripts.len() == 4 && scripts.contains(ScriptKind::Player)
                && scripts.contains(ScriptKind::CharacterController) && scripts.contains(ScriptKind::Health)
                && scripts.contains(ScriptKind::Inventory))
            &&& (k == EntityKind::DirectionalLight ==> kind == SceneEntityKind::DirectionalLight
                && shown_spec(kind, material, camera, light, scripts).contains(ComponentKind::DirectionalLight))
            &&& (k == EntityKind::PointLight ==> kind == SceneEntityKind::PointLight
                && shown_spec(kind, material, camera, light, scripts).contains(ComponentKind::PointLight))
            &&& (k == EntityKind::SpotLight ==> kind == SceneEntityKind::SpotLight
                && shown_spec(kind, material, camera, light, scripts).contains(ComponentKind::SpotLight))
            &&& (k == EntityKind::Camera ==> kind == SceneEntityKind::Camera)
            &&& (k == EntityKind::Empty ==> kind == SceneEntityKind::Empty)
            &&& (k matches EntityKind::Mesh(p) ==> kind == SceneEntityKind::Mesh(p))
            &&& (k == EntityKind::PlayerPrefab ==> kind == SceneEntityKind::Mesh(MeshPrimitive::Capsule))
        }),
{
    let (kind, material, camera, light, scripts) = shape_spec(k);
    let shown = shown_spec(kind, material, camera, light, scripts);
    match k {
        EntityKind::PlayerPrefab => {
            assert(scripts[0] == ScriptKind::Player);
            assert(scripts[1] == ScriptKind::CharacterController);
            assert(scripts[2] == ScriptKind::Health);
            assert(scripts[3] == ScriptKind::Inventory);
        },
        EntityKind::DirectionalLight => {
            assert(shown[2] == ComponentKind::DirectionalLight);
        },
        EntityKind::PointLight => {
            assert(shown[2] == ComponentKind::PointLight);
        },
        EntityKind::SpotLight => {
            assert(shown[2] == ComponentKind::SpotLight);
        },
        _ => {},
    }
}

/// Removing a component applies exactly when the entity has it: a material
/// when it has a material, a script component when it carries that script;
/// the intrinsic components (transform, visibility, mesh, camera, lights)
/// are never removed nor added. Of a component that can come and go,
/// adding applies exactly when removing does not.
pub proof fn lemma_remove_applies_exactly_when_present(c: ComponentKind, has_material: bool, scripts: Seq<ScriptKind>)
    ensures
        removes_component(ComponentKind::Material, has_material, scripts) == has_material,
        adds_component(ComponentKind::Material, has_material, scripts) == !has_material,
        forall|k: ScriptKind| removes_component(#[trigger] script_component_spec(k), has_material, scripts) == scripts.contains(k),
        forall|k: ScriptKind| adds_component(#[trigger] script_component_spec(k), has_material, scripts) == !scripts.contains(k),
        (c == ComponentKind::Transform || c == ComponentKind::Visibility || c == ComponentKind::Mesh
            || c == ComponentKind::Camera || c == ComponentKind::DirectionalLight || c == ComponentKind::PointLight
            || c == ComponentKind::SpotLight) ==> !removes_component(c, has_material, scripts)
                && !adds_component(c, has_material, scripts),
{
    assert forall|k: ScriptKind| removes_component(#[trigger] script_component_spec(k), has_material, scripts)
        == scripts.contains(k) by {
        assert(script_of_component_spec(script_component_spec(k)) == Some(k));
    }
    assert forall|k: ScriptKind| adds_component(#[trigger] script_component_spec(k), has_material, scripts)
        == !scripts.contains(k) by {
        assert(script_of_component_spec(script_component_spec(k)) == Some(k));
    }
}

} // verus!
