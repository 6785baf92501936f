//! Editor session vocabulary: viewport and dock tabs, gizmo modes and
//! handles, the icon catalogue, open script documents, file-dialog purposes,
//! and the bounded queues behind the console, output and toast panels.

use vstd::prelude::*;
use crate::ipc::{entity_kind_label, mesh_primitive_label, AnimTrack, EntityKind};
use crate::project::{resolve_scene_spec, Project};
use crate::runtime::TargetOs;
use crate::text::{concat, decimal, format_decimal, owned, str_eq};

verus! {

/// Viewport tab (Scene shows the editor camera, Game a scene camera).
#[derive(Debug, Clone, Copy, PartialEq, Eq, Structural)]
pub enum ViewportTab {
    Scene,
    Game,
}

impl ViewportTab {
    /// The tab shown at startup.
    pub fn initial() -> (t: Self)
        ensures
            t == ViewportTab::Scene,
    {
        ViewportTab::Scene
    }
}

/// Which bottom dock tab is visible.
#[derive(Debug, Clone, Copy, PartialEq, Eq, Structural)]
pub enum DockTab {
    Timeline,
    Console,
    Output,
}

impl DockTab {
    /// The tab shown at startup.
    pub fn initial() -> (t: Self)
        ensures
            t == DockTab::Console,
    {
        DockTab::Console
    }
}

/// A script file open in the script editor tab.
#[derive(Debug, Clone)]
pub struct ScriptDoc {
    pub path: String,
    pub name: String,
    pub text: String,
    pub dirty: bool,
    pub error_line: Option<(u32, String)>,
}

impl ScriptDoc {
    /// A freshly opened, unmodified script document.
    pub fn opened(path: &str, name: &str, text: String) -> (d: Self)
        ensures
            d.path@ == path@,
            d.name@ == name@,
            d.text@ == text@,
            !d.dirty,
            d.error_line is None,
    {
        ScriptDoc { path: owned(path), name: owned(name), text, dirty: false, error_line: None }
    }
}

/// Position of the open document for `path`, if it is open.
pub fn find_script(docs: &Vec<ScriptDoc>, path: &str) -> (r: Option<usize>)
    ensures
        match r {
            Some(i) => i < docs@.len() && docs@[i as int].path@ == path@
                && forall|j: int| 0 <= j < i ==> (#[trigger] docs@[j]).path@ != path@,
            None => forall|j: int| 0 <= j < docs@.len() ==> (#[trigger] docs@[j]).path@ != path@,
        },
{
    let n = docs.len();
    let mut i: usize = 0;
    while i < n
        invariant
            n == docs@.len(),
            i <= n,
            forall|j: int| 0 <= j < i ==> (#[trigger] docs@[j]).path@ != path@,
        decreases n - i,
    {
        if str_eq(docs[i].path.as_str(), path) {
            return Some(i);
        }
        i = i + 1;
    }
    None
}

/// Active manipulator mode (toolbar buttons / W-E-R shortcuts).
#[derive(Debug, Clone, Copy, PartialEq, Eq, Structural)]
pub enum GizmoMode {
    Translate,
    Rotate,
    Scale,
}

/// Toolbar name of a gizmo mode.
pub open spec fn gizmo_mode_label(m: GizmoMode) -> Seq<char> {
    match m {
        GizmoMode::Translate => "Translate"@,
        GizmoMode::Rotate => "Rotate"@,
        GizmoMode::Scale => "Scale"@,
    }
}

impl GizmoMode {
    /// The mode at startup.
    pub fn initial() -> (m: Self)
        ensures
            m == GizmoMode::Translate,
    {
        GizmoMode::Translate
    }

    /// Toolbar name of the mode.
    pub fn label(self) -> (r: &'static str)
        ensures
            r@ == gizmo_mode_label(self),
    {
        match self {
            GizmoMode::Translate => "Translate",
            GizmoMode::Rotate => "Rotate",
            GizmoMode::Scale => "Scale",
        }
    }
}

/// Which gizmo sub-handle the pointer grabbed.
#[derive(Debug, Clone, Copy, PartialEq, Eq, Structural)]
pub enum GizmoHandle {
    /// Single axis translate (index 0/1/2).
    TranslateAxis(usize),
    /// Two-axis plane translate, e.g. `(0, 1)` = XY.
    TranslatePlane(usize, usize),
    /// Camera-facing free move (centre marker).
    TranslateView,
    /// Rotation ring around an axis.
    RotateAxis(usize),
    /// Per-axis scale (index).
    ScaleAxis(usize),
    /// Uniform scale (centre cube).
    ScaleUniform,
}

/// The undo-menu label of a drag of `h` on the entity called `name`.
pub open spec fn undo_label_spec(h: GizmoHandle, name: Seq<char>) -> Seq<char> {
    match h {
        GizmoHandle::TranslateAxis(_) | GizmoHandle::TranslatePlane(_, _) | GizmoHandle::TranslateView =>
            "Translate "@ + name,
        GizmoHandle::RotateAxis(_) => "Rotate "@ + name,
        GizmoHandle::ScaleAxis(_) | GizmoHandle::ScaleUniform => "Scale "@ + name,
    }
}

impl GizmoHandle {
    /// The undo-menu label of a drag of this handle on `name`.
    pub fn undo_label(self, name: &str) -> (r: String)
        ensures
            r@ == undo_label_spec(self, name@),
    {
        match self {
            GizmoHandle::TranslateAxis(_) | GizmoHandle::TranslatePlane(_, _) | GizmoHandle::TranslateView =>
                concat("Translate ", name),
            GizmoHandle::RotateAxis(_) => concat("Rotate ", name),
            GizmoHandle::ScaleAxis(_) | GizmoHandle::ScaleUniform => concat("Scale ", name),
        }
    }
}

/// The icon catalogue.
#[derive(Debug, Clone, Copy, PartialEq, Eq, Structural)]
pub enum Icon {
    Translate,
    Rotate,
    Scale,
    Grid,
    Outline,
    Frame,
    Camera,
    Perspective,
    Play,
    Pause,
    Stop,
    SkipBack,
    SkipForward,
    Rewind,
    FastForward,
    Record,
    Keyframe,
    Undo,
    Redo,
    Trash,
    Duplicate,
    Plus,
    Close,
    Check,
    Reload,
    Save,
    Folder,
    File,
    Scene,
    Script,
    Image,
    Config,
    Home,
    Cube,
    Sphere,
    Light,
    Player,
    Group,
    Env,
    Sound,
    Material,
    Eye,
    EyeOff,
    Lock,
    Unlock,
    Search,
    Console,
    Terminal,
    Graph,
    Layers,
    Wrench,
    Bevy,
    Warn,
    Error,
    Info,
    Monitor,
    PlayCircle,
}

/// What the file dialog is currently choosing.
#[derive(Debug, Clone, Copy, PartialEq, Eq, Structural)]
pub enum DialogPurpose {
    OpenProject,
    OpenScene,
    SaveSceneAs,
    NewProject,
}

/// The dialog a UI smoke-test mode name arms, if it names one.
pub open spec fn test_dialog_spec(mode: Seq<char>) -> Option<DialogPurpose> {
    if mode == "open_project"@ {
        Some(DialogPurpose::OpenProject)
    } else if mode == "new_project"@ {
        Some(DialogPurpose::NewProject)
    } else if mode == "open_scene"@ {
        Some(DialogPurpose::OpenScene)
    } else if mode == "save_scene_as"@ {
        Some(DialogPurpose::SaveSceneAs)
    } else {
        None
    }
}

/// The dialog a UI smoke-test mode name arms (see [`test_dialog_spec`]).
pub fn test_dialog(mode: &str) -> (r: Option<DialogPurpose>)
    ensures
        r == test_dialog_spec(mode@),
{
    if str_eq(mode, "open_project") {
        Some(DialogPurpose::OpenProject)
    } else if str_eq(mode, "new_project") {
        Some(DialogPurpose::NewProject)
    } else if str_eq(mode, "open_scene") {
        Some(DialogPurpose::OpenScene)
    } else if str_eq(mode, "save_scene_as") {
        Some(DialogPurpose::SaveSceneAs)
    } else {
        None
    }
}

/// Whether a dialog picks a directory (project dialogs) rather than a file.
pub open spec fn picks_directory_spec(p: DialogPurpose) -> bool {
    p == DialogPurpose::OpenProject || p == DialogPurpose::NewProject
}

/// The title a file dialog shows for each purpose.
pub open spec fn dialog_title_spec(p: DialogPurpose) -> Seq<char> {
    match p {
        DialogPurpose::OpenProject => "Open project — choose the project folder"@,
        DialogPurpose::NewProject => "New project — choose a folder for it"@,
        DialogPurpose::OpenScene => "Open scene (.scn.ron)"@,
        DialogPurpose::SaveSceneAs => "Save scene as"@,
    }
}

impl DialogPurpose {
    /// The dialog's title (see [`dialog_title_spec`]).
    pub fn title(self) -> (r: &'static str)
        ensures
            r@ == dialog_title_spec(self),
    {
        match self {
            DialogPurpose::OpenProject => "Open project — choose the project folder",
            DialogPurpose::NewProject => "New project — choose a folder for it",
            DialogPurpose::OpenScene => "Open scene (.scn.ron)",
            DialogPurpose::SaveSceneAs => "Save scene as",
        }
    }

    /// The file name a save dialog proposes; only "Save Scene As" proposes
    /// one.
    pub fn default_file_name(self) -> (r: Option<&'static str>)
        ensures
            match r {
                Some(n) => self == DialogPurpose::SaveSceneAs && n@ == "scene.scn.ron"@,
                None => self != DialogPurpose::SaveSceneAs,
            },
    {
        match self {
            DialogPurpose::SaveSceneAs => Some("scene.scn.ron"),
            _ => None,
        }
    }

    /// Whether the dialog starts in the project's scenes directory (scene
    /// dialogs) rather than next to the project folder.
    pub fn starts_in_scenes(self) -> (r: bool)
        ensures
            r == (self == DialogPurpose::OpenScene || self == DialogPurpose::SaveSceneAs),
    {
        match self {
            DialogPurpose::OpenScene | DialogPurpose::SaveSceneAs => true,
            _ => false,
        }
    }

    /// Whether the dialog picks a directory (project dialogs) rather than a
    /// file.
    pub fn picks_directory(self) -> (r: bool)
        ensures
            r == picks_directory_spec(self),
    {
        match self {
            DialogPurpose::OpenProject | DialogPurpose::NewProject => true,
            _ => false,
        }
    }
}

/// Active keyframe drag on the timeline.
#[derive(Debug, Clone, Copy, PartialEq, Eq, Structural)]
pub struct KeyframeDrag {
    pub entity: u64,
    pub track: AnimTrack,
    pub index: usize,
}

/// The name a new entity of kind `k` is spawned under (made unique by the
/// document): a mesh is named after its primitive, the player prefab
/// "Player", an empty entity "Empty", anything else by its menu name.
pub open spec fn spawn_name_spec(k: EntityKind) -> Seq<char> {
    match k {
        EntityKind::Mesh(p) => mesh_primitive_label(p),
        EntityKind::PlayerPrefab => "Player"@,
        EntityKind::Empty => "Empty"@,
        _ => entity_kind_label(k),
    }
}

/// The name a new entity of kind `k` is spawned under (see
/// [`spawn_name_spec`]).
pub fn spawn_name(k: EntityKind) -> (r: &'static str)
    ensures
        r@ == spawn_name_spec(k),
{
    match k {
        EntityKind::Mesh(p) => p.label(),
        EntityKind::PlayerPrefab => "Player",
        EntityKind::Empty => "Empty",
        _ => k.label(),
    }
}

/// Where "Save Scene" writes: the open scene's file, else the project's
/// main scene, else the default main scene path.
pub open spec fn save_target_spec(scene_path: Option<Seq<char>>, project: Option<(TargetOs, Seq<char>, Seq<char>)>) -> Seq<char> {
    match scene_path {
        Some(p) => p,
        None => match project {
            Some((os, root, main_scene)) => resolve_scene_spec(os, root, main_scene, Seq::empty()),
            None => "assets/scenes/main.scn.ron"@,
        },
    }
}

/// Where "Save Scene" writes (see [`save_target_spec`]).
pub fn save_target(scene_path: Option<&str>, project: Option<&Project>) -> (r: String)
    ensures
        r@ == save_target_spec(
            match scene_path { Some(p) => Some(p@), None => None },
            match project { Some(p) => Some((p.os, p.root@, p.manifest.main_scene@)), None => None },
        ),
{
    match scene_path {
        Some(p) => owned(p),
        None => match project {
            Some(pr) => {
                let r = pr.resolve_scene("");
                proof {
                    reveal_strlit("");
                    assert(""@ =~= Seq::<char>::empty());
                }
                r
            },
            None => owned("assets/scenes/main.scn.ron"),
        },
    }
}

/// The Edit menu's undo entry: "Undo " and the label of the edit it undoes.
pub fn undo_menu_label(top: Option<&str>) -> (r: String)
    ensures
        r@ == "Undo "@ + match top { Some(l) => l@, None => Seq::empty() },
{
    match top {
        Some(l) => concat("Undo ", l),
        None => {
            let r = owned("Undo ");
            assert(r@ =~= "Undo "@ + Seq::<char>::empty());
            r
        },
    }
}

/// The file a screenshot taken at `secs` seconds after the epoch goes to.
pub fn screenshot_name(secs: u64) -> (r: String)
    ensures
        r@ == "screenshot-"@ + decimal(secs as nat) + ".png"@,
{
    let mut r = owned("screenshot-");
    let d = format_decimal(secs);
    r.append(d.as_str());
    r.append(".png");
    r
}

/// Most toasts shown at once.
pub const MAX_TOASTS: usize = 8;

/// Most console log entries kept.
pub const MAX_LOGS: usize = 5000;

/// Most raw compiler/engine output lines kept.
pub const MAX_OUTPUT_LINES: usize = 2000;

/// `s` after appending `x` and dropping the oldest entry when more than
/// `cap` would be held.
pub open spec fn pushed_bounded<T>(s: Seq<T>, x: T, cap: nat) -> Seq<T> {
    if s.len() + 1 > cap {
        s.push(x).drop_first()
    } else {
        s.push(x)
    }
}

/// Append `item`, dropping the oldest entry when more than `cap` would be
/// held.
pub fn push_bounded<T>(v: &mut Vec<T>, item: T, cap: usize)
    ensures
        final(v)@ == pushed_bounded(old(v)@, item, cap as nat),
{
    v.push(item);
    if v.len() > cap {
        v.remove(0);
    }
}

/// The last `cap` entries of `s` (all of them when there are fewer).
pub open spec fn last_n<T>(s: Seq<T>, cap: nat) -> Seq<T> {
    if s.len() > cap {
        s.subrange(s.len() - cap, s.len() as int)
    } else {
        s
    }
}

/// Drop the oldest entries so that at most `cap` remain.
pub fn keep_last<T>(v: &mut Vec<T>, cap: usize)
    ensures
        final(v)@ == last_n(old(v)@, cap as nat),
{
    if v.len() <= cap {
        return;
    }
    let excess = v.len() - cap;
    let mut rest = v.split_off(excess);
    std::mem::swap(v, &mut rest);
    proof {
        assert(v@ =~= last_n(old(v)@, cap as nat));
    }
}

/// A bounded queue stays within its cap: appending to a queue that is within
/// a positive cap keeps it within the cap, with the new entry last and the
/// older entries in order.
pub proof fn lemma_pushed_bounded_cap<T>(s: Seq<T>, x: T, cap: nat)
    requires
        s.len() <= cap,
        cap > 0,
    ensures
        pushed_bounded(s, x, cap).len() <= cap,
        pushed_bounded(s, x, cap).last() == x,
        pushed_bounded(s, x, cap).drop_last() == last_n(s, (cap - 1) as nat),
{
    let r = pushed_bounded(s, x, cap);
    if s.len() + 1 > cap {
        assert(r.drop_last() =~= last_n(s, (cap - 1) as nat));
    } else {
        assert(r.drop_last() =~= s);
    }
}

} // verus!
