//! The asset browser's rules: what kind of file an entry is, the glyph it
//! is listed with, and what opening it does.

use vstd::prelude::*;
use crate::text::{ascii_lower_code, concat, ends_with_ci, ends_with_ci_spec};

verus! {

/// What an entry of the asset browser is.
#[derive(Debug, Clone, Copy, PartialEq, Eq, Structural)]
pub enum AssetKind {
    Folder,
    Scene,
    Script,
    Image,
    Manifest,
    Model,
    Other,
}

/// Whether `name` names an image the preview window shows.
pub open spec fn is_image_spec(name: Seq<char>) -> bool {
    ends_with_ci_spec(name, ".png"@) || ends_with_ci_spec(name, ".jpg"@) || ends_with_ci_spec(name, ".jpeg"@)
}

/// The kind of an entry named `name`, by its extension (ASCII case does
/// not matter).
pub open spec fn asset_kind_spec(name: Seq<char>, is_dir: bool) -> AssetKind {
    if is_dir {
        AssetKind::Folder
    } else if ends_with_ci_spec(name, ".ron"@) {
        AssetKind::Scene
    } else if ends_with_ci_spec(name, ".rs"@) {
        AssetKind::Script
    } else if is_image_spec(name) {
        AssetKind::Image
    } else if ends_with_ci_spec(name, ".toml"@) {
        AssetKind::Manifest
    } else if ends_with_ci_spec(name, ".gltf"@) || ends_with_ci_spec(name, ".glb"@) || ends_with_ci_spec(name, ".obj"@) {
        AssetKind::Model
    } else {
        AssetKind::Other
    }
}

fn is_image(name: &str) -> (r: bool)
    ensures
        r == is_image_spec(name@),
{
    ends_with_ci(name, ".png") || ends_with_ci(name, ".jpg") || ends_with_ci(name, ".jpeg")
}

/// The kind of an entry (see [`asset_kind_spec`]).
pub fn asset_kind(name: &str, is_dir: bool) -> (r: AssetKind)
    ensures
        r == asset_kind_spec(name@, is_dir),
{
    if is_dir {
        AssetKind::Folder
    } else if ends_with_ci(name, ".ron") {
        AssetKind::Scene
    } else if ends_with_ci(name, ".rs") {
        AssetKind::Script
    } else if is_image(name) {
        AssetKind::Image
    } else if ends_with_ci(name, ".toml") {
        AssetKind::Manifest
    } else if ends_with_ci(name, ".gltf") || ends_with_ci(name, ".glb") || ends_with_ci(name, ".obj") {
        AssetKind::Model
    } else {
        AssetKind::Other
    }
}

/// The glyph an entry of each kind is listed with.
pub open spec fn glyph_spec(k: AssetKind) -> Seq<char> {
    match k {
        AssetKind::Folder => "▤"@,
        AssetKind::Scene => "❐"@,
        AssetKind::Script => "⬢"@,
        AssetKind::Image => "▩"@,
        AssetKind::Manifest => "⚑"@,
        AssetKind::Model => "◈"@,
        AssetKind::Other => "▪"@,
    }
}

impl AssetKind {
    /// The glyph this kind is listed with.
    pub fn glyph(self) -> (r: &'static str)
        ensures
            r@ == glyph_spec(self),
    {
        match self {
            AssetKind::Folder => "▤",
            AssetKind::Scene => "❐",
            AssetKind::Script => "⬢",
            AssetKind::Image => "▩",
            AssetKind::Manifest => "⚑",
            AssetKind::Model => "◈",
            AssetKind::Other => "▪",
        }
    }
}

/// What double-clicking an entry does.
#[derive(Debug, Clone, Copy, PartialEq, Eq, Structural)]
pub enum AssetAction {
    /// A folder: nothing.
    Ignore,
    /// Open it as the scene.
    OpenScene,
    /// Open it in the script editor.
    OpenScript,
    /// Show the image preview.
    PreviewImage,
    /// Tell the user no editor handles it.
    NoEditor,
}

/// What double-clicking the entry at `path` does: `.ron` files open as the
/// scene, `.rs` files in the script editor, PNG and JPEG images in the
/// preview; anything else has no editor.
pub open spec fn asset_action_spec(path: Seq<char>, is_dir: bool) -> AssetAction {
    if is_dir {
        AssetAction::Ignore
    } else if ends_with_ci_spec(path, ".ron"@) {
        AssetAction::OpenScene
    } else if ends_with_ci_spec(path, ".rs"@) {
        AssetAction::OpenScript
    } else if is_image_spec(path) {
        AssetAction::PreviewImage
    } else {
        AssetAction::NoEditor
    }
}

/// What double-clicking an entry does (see [`asset_action_spec`]).
pub fn asset_action(path: &str, is_dir: bool) -> (r: AssetAction)
    ensures
        r == asset_action_spec(path@, is_dir),
{
    if is_dir {
        AssetAction::Ignore
    } else if ends_with_ci(path, ".ron") {
        AssetAction::OpenScene
    } else if ends_with_ci(path, ".rs") {
        AssetAction::OpenScript
    } else if is_image(path) {
        AssetAction::PreviewImage
    } else {
        AssetAction::NoEditor
    }
}

/// The notice for a file no editor handles.
pub fn no_editor_text(path: &str) -> (r: String)
    ensures
        r@ == "No editor registered for "@ + path@,
{
    concat("No editor registered for ", path)
}


/// A name that ends with `suffix` (ignoring ASCII case) has, as its last
/// character, one that lowers to the suffix's last.
proof fn lemma_last_char(name: Seq<char>, suffix: Seq<char>)
    requires
        suffix.len() > 0,
        ends_with_ci_spec(name, suffix),
    ensures
        ascii_lower_code(name.last()) == suffix.last() as u32,
{
    let k = suffix.len() - 1;
    assert(ascii_lower_code(name[name.len() - suffix.len() + k]) == suffix[k] as u32);
}

/// The action the browser takes for an entry of kind `k`.
pub open spec fn action_for_kind(k: AssetKind) -> AssetAction {
    match k {
        AssetKind::Folder => AssetAction::Ignore,
        AssetKind::Scene => AssetAction::OpenScene,
        AssetKind::Script => AssetAction::OpenScript,
        AssetKind::Image => AssetAction::PreviewImage,
        _ => AssetAction::NoEditor,
    }
}

/// Opening an entry goes by its extension, whatever its ASCII case: a
/// folder does nothing; a `.ron` file opens as the scene; a `.rs` file in
/// the script editor; a `.png`, `.jpg` or `.jpeg` image in the preview;
/// any other file has no editor. The browser lists a `.toml` file as the
/// manifest, a `.gltf`, `.glb` or `.obj` file as a model, any other file
/// as other, and each entry with the kind that matches what opening it does.
pub proof fn lemma_entries_open_by_extension(path: Seq<char>, is_dir: bool)
    ensures
        is_dir ==> asset_action_spec(path, is_dir) == AssetAction::Ignore && asset_kind_spec(path, is_dir) == AssetKind::Folder,
        !is_dir && ends_with_ci_spec(path, ".ron"@) ==> asset_action_spec(path, is_dir) == AssetAction::OpenScene
            && asset_kind_spec(path, is_dir) == AssetKind::Scene,
        !is_dir && ends_with_ci_spec(path, ".rs"@) ==> asset_action_spec(path, is_dir) == AssetAction::OpenScript
            && asset_kind_spec(path, is_dir) == AssetKind::Script,
        !is_dir && (ends_with_ci_spec(path, ".png"@) || ends_with_ci_spec(path, ".jpg"@) || ends_with_ci_spec(path, ".jpeg"@))
            ==> asset_action_spec(path, is_dir) == AssetAction::PreviewImage
                && asset_kind_spec(path, is_dir) == AssetKind::Image,
        !is_dir && !ends_with_ci_spec(path, ".ron"@) && !ends_with_ci_spec(path, ".rs"@) && !ends_with_ci_spec(path, ".png"@)
            && !ends_with_ci_spec(path, ".jpg"@) && !ends_with_ci_spec(path, ".jpeg"@)
            ==> asset_action_spec(path, is_dir) == AssetAction::NoEditor,
        !is_dir && ends_with_ci_spec(path, ".toml"@) ==> asset_kind_spec(path, is_dir) == AssetKind::Manifest,
        !is_dir && (ends_with_ci_spec(path, ".gltf"@) || ends_with_ci_spec(path, ".glb"@) || ends_with_ci_spec(path, ".obj"@))
            ==> asset_kind_spec(path, is_dir) == AssetKind::Model,
        !is_dir && !ends_with_ci_spec(path, ".ron"@) && !ends_with_ci_spec(path, ".rs"@) && !ends_with_ci_spec(path, ".png"@)
            && !ends_with_ci_spec(path, ".jpg"@) && !ends_with_ci_spec(path, ".jpeg"@) && !ends_with_ci_spec(path, ".toml"@)
            && !ends_with_ci_spec(path, ".gltf"@) && !ends_with_ci_spec(path, ".glb"@) && !ends_with_ci_spec(path, ".obj"@)
            ==> asset_kind_spec(path, is_dir) == AssetKind::Other,
        asset_action_spec(path, is_dir) == action_for_kind(asset_kind_spec(path, is_dir)),
{
    reveal_strlit(".toml");
    reveal_strlit(".gltf");
    reveal_strlit(".glb");
    reveal_strlit(".obj");
    if ends_with_ci_spec(path, ".toml"@) {
        lemma_last_char(path, ".toml"@);
    }
    if ends_with_ci_spec(path, ".gltf"@) {
        lemma_last_char(path, ".gltf"@);
    }
    if ends_with_ci_spec(path, ".glb"@) {
        lemma_last_char(path, ".glb"@);
    }
    if ends_with_ci_spec(path, ".obj"@) {
        lemma_last_char(path, ".obj"@);
    }
    reveal_strlit(".ron");
    reveal_strlit(".rs");
    reveal_strlit(".png");
    reveal_strlit(".jpg");
    reveal_strlit(".jpeg");
    if ends_with_ci_spec(path, ".ron"@) {
        lemma_last_char(path, ".ron"@);
    }
    if ends_with_ci_spec(path, ".rs"@) {
        lemma_last_char(path, ".rs"@);
    }
    if ends_with_ci_spec(path, ".png"@) {
        lemma_last_char(path, ".png"@);
    }
    if ends_with_ci_spec(path, ".jpg"@) {
        lemma_last_char(path, ".jpg"@);
    }
    if ends_with_ci_spec(path, ".jpeg"@) {
        lemma_last_char(path, ".jpeg"@);
    }
}

} // verus!
