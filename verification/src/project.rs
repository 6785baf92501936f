//! On-disk BevyForge project model.
//!
//! A project is a directory holding a `BevyForge.toml` manifest, an `assets`
//! tree (scenes under `assets/scenes`, scripts, prefabs, materials, textures,
//! meshes) and a `scripts` crate. Paths are kept as text and joined by the
//! rules of the platform the project lives on.

use vstd::prelude::*;
use crate::paths::{join_spec, path_join};
use crate::runtime::TargetOs;
use crate::text::{owned, concat, starts_with, ends_with, ends_with_spec, str_le, lex_le, lemma_lex_total, lemma_lex_trans};

verus! {

/// Parsed `BevyForge.toml`.
#[derive(Debug, Clone)]
pub struct ProjectManifest {
    pub name: String,
    /// Engine feature level the project was created with.
    pub engine: String,
    /// Project-relative path of the scene opened at startup.
    pub main_scene: String,
}

impl ProjectManifest {
    /// The manifest of a fresh project.
    pub fn default_manifest() -> (m: Self)
        ensures
            m.name@ == "Untitled Project"@,
            m.engine@ == "bevy 0.19"@,
            m.main_scene@ == "assets/scenes/main.scn.ron"@,
    {
        ProjectManifest {
            name: owned("Untitled Project"),
            engine: owned("bevy 0.19"),
            main_scene: owned("assets/scenes/main.scn.ron"),
        }
    }

    /// The manifest of a fresh project called `name`.
    pub fn named(name: &str) -> (m: Self)
        ensures
            m.name@ == name@,
            m.engine@ == "bevy 0.19"@,
            m.main_scene@ == "assets/scenes/main.scn.ron"@,
    {
        ProjectManifest {
            name: owned(name),
            engine: owned("bevy 0.19"),
            main_scene: owned("assets/scenes/main.scn.ron"),
        }
    }
}

/// Name of the manifest file at a project's root.
pub const MANIFEST_FILE: &'static str = "BevyForge.toml";

/// The directories a fresh project creates, relative to its root.
pub open spec fn project_dirs_spec() -> Seq<Seq<char>> {
    seq![
        "assets/scenes"@,
        "assets/scripts"@,
        "assets/prefabs"@,
        "assets/materials"@,
        "assets/textures"@,
        "assets/meshes"@,
        "scripts"@,
    ]
}

/// The directories a fresh project creates, relative to its root.
pub fn project_dirs() -> (r: Vec<&'static str>)
    ensures
        r@.map_values(|s: &str| s@) == project_dirs_spec(),
{
    let r = vec![
        "assets/scenes",
        "assets/scripts",
        "assets/prefabs",
        "assets/materials",
        "assets/textures",
        "assets/meshes",
        "scripts",
    ];
    assert(r@.map_values(|s: &str| s@) =~= project_dirs_spec());
    r
}

/// An opened project with resolved paths.
#[derive(Debug, Clone)]
pub struct Project {
    /// The platform whose path rules the project's paths follow.
    pub os: TargetOs,
    pub root: String,
    pub manifest: ProjectManifest,
}

/// Where a scene reference points inside a project: the empty reference is
/// the main scene; a reference starting with `assets/` is relative to the
/// root; any other is relative to the scenes directory.
pub open spec fn resolve_scene_spec(os: TargetOs, root: Seq<char>, main_scene: Seq<char>, scene: Seq<char>) -> Seq<char> {
    if scene.len() == 0 {
        join_spec(os, root, main_scene)
    } else if "assets/"@.len() <= scene.len() && scene.subrange(0, "assets/"@.len() as int) == "assets/"@ {
        join_spec(os, root, scene)
    } else {
        join_spec(os, join_spec(os, join_spec(os, root, "assets"@), "scenes"@), scene)
    }
}

impl Project {
    /// The project at `root` with `manifest`, its paths following the
    /// rules of platform `os`.
    pub fn new(os: TargetOs, root: &str, manifest: ProjectManifest) -> (p: Self)
        ensures
            p.os == os,
            p.root@ == root@,
            p.manifest == manifest,
    {
        Project { os, root: owned(root), manifest }
    }

    /// Path of the manifest file.
    pub fn manifest_path(&self) -> (r: String)
        ensures
            r@ == join_spec(self.os, self.root@, MANIFEST_FILE@),
    {
        path_join(self.os, self.root.as_str(), MANIFEST_FILE)
    }

    /// Path of the assets directory.
    pub fn assets_dir(&self) -> (r: String)
        ensures
            r@ == join_spec(self.os, self.root@, "assets"@),
    {
        path_join(self.os, self.root.as_str(), "assets")
    }

    /// Path of the scenes directory.
    pub fn scenes_dir(&self) -> (r: String)
        ensures
            r@ == join_spec(self.os, join_spec(self.os, self.root@, "assets"@), "scenes"@),
    {
        let a = self.assets_dir();
        path_join(self.os, a.as_str(), "scenes")
    }

    /// Path of the editable scripts crate.
    pub fn scripts_crate_dir(&self) -> (r: String)
        ensures
            r@ == join_spec(self.os, self.root@, "scripts"@),
    {
        path_join(self.os, self.root.as_str(), "scripts")
    }

    /// Resolve a scene reference against the project (see
    /// [`resolve_scene_spec`]).
    pub fn resolve_scene(&self, scene: &str) -> (r: String)
        ensures
            r@ == resolve_scene_spec(self.os, self.root@, self.manifest.main_scene@, scene@),
    {
        proof {
            reveal_strlit("assets/");
        }
        if scene.unicode_len() == 0 {
            path_join(self.os, self.root.as_str(), self.manifest.main_scene.as_str())
        } else if starts_with(scene, "assets/") {
            path_join(self.os, self.root.as_str(), scene)
        } else {
            let d = self.scenes_dir();
            path_join(self.os, d.as_str(), scene)
        }
    }
}


/// Whether a file name names a scene file (`*.scn.ron`).
pub open spec fn is_scene_file(name: Seq<char>) -> bool {
    ends_with_spec(name, ".scn.ron"@)
}

/// The project-relative paths of the scene files among `names`, in the
/// order given.
pub open spec fn scene_entries(names: Seq<Seq<char>>) -> Seq<Seq<char>>
    decreases names.len(),
{
    if names.len() == 0 {
        Seq::empty()
    } else {
        let rest = scene_entries(names.drop_last());
        if is_scene_file(names.last()) {
            rest.push("assets/scenes/"@ + names.last())
        } else {
            rest
        }
    }
}

/// Each entry comes no later than the ones after it.
pub open spec fn lex_sorted(s: Seq<Seq<char>>) -> bool {
    forall|i: int, j: int| 0 <= i < j < s.len() ==> lex_le(#[trigger] s[i], #[trigger] s[j])
}

/// Inserting `e` right after the entries that come no later than it keeps
/// a sorted listing sorted.
proof fn lemma_insert_sorted(s: Seq<Seq<char>>, p: int, e: Seq<char>)
    requires
        lex_sorted(s),
        0 <= p <= s.len(),
        forall|j: int| 0 <= j < p ==> lex_le(#[trigger] s[j], e),
        p < s.len() ==> !lex_le(s[p], e),
    ensures
        lex_sorted(s.insert(p, e)),
{
    let t = s.insert(p, e);
    if p < s.len() {
        lemma_lex_total(s[p], e);
    }
    assert forall|i: int, j: int| 0 <= i < j < t.len() implies lex_le(#[trigger] t[i], #[trigger] t[j]) by {
        if j < p {
            assert(t[i] == s[i] && t[j] == s[j]);
        } else if j == p {
            assert(t[i] == s[i] && t[j] == e);
        } else if i < p {
            assert(t[i] == s[i] && t[j] == s[j - 1]);
        } else if i == p {
            assert(t[i] == e && t[j] == s[j - 1]);
            if j - 1 > p {
                assert(lex_le(s[p], s[j - 1]));
                lemma_lex_trans(e, s[p], s[j - 1]);
            }
        } else {
            assert(t[i] == s[i - 1] && t[j] == s[j - 1]);
        }
    }
}

/// The scene files among the file names of the scenes directory, as
/// project-relative paths (`assets/scenes/` and the name), sorted.
pub fn scene_listing(names: &Vec<String>) -> (r: Vec<String>)
    ensures
        lex_sorted(r@.map_values(|s: String| s@)),
        r@.map_values(|s: String| s@).to_multiset()
            == scene_entries(names@.map_values(|s: String| s@)).to_multiset(),
{
    broadcast use vstd::seq_lib::group_to_multiset_ensures;
    let ghost all = names@.map_values(|s: String| s@);
    let mut r: Vec<String> = Vec::new();
    let n = names.len();
    let mut i: usize = 0;
    assert(all.subrange(0, 0) =~= Seq::<Seq<char>>::empty());
    assert(r@.map_values(|s: String| s@) =~= Seq::<Seq<char>>::empty());
    while i < n
        invariant
            n == names@.len(),
            all == names@.map_values(|s: String| s@),
            i <= n,
            lex_sorted(r@.map_values(|s: String| s@)),
            r@.map_values(|s: String| s@).to_multiset() == scene_entries(all.subrange(0, i as int)).to_multiset(),
        decreases n - i,
    {
        let name = names[i].as_str();
        let ghost before = r@.map_values(|s: String| s@);
        proof {
            assert(all.subrange(0, i + 1).drop_last() =~= all.subrange(0, i as int));
            assert(all.subrange(0, i + 1).last() == name@);
        }
        if ends_with(name, ".scn.ron") {
            let e = concat("assets/scenes/", name);
            let m = r.len();
            let mut p: usize = 0;
            while p < m && str_le(r[p].as_str(), e.as_str())
                invariant
                    m == r@.len(),
                    p <= m,
                    before == r@.map_values(|s: String| s@),
                    forall|j: int| 0 <= j < p ==> lex_le(#[trigger] before[j], e@),
                decreases m - p,
            {
                p = p + 1;
            }
            proof {
                lemma_insert_sorted(before, p as int, e@);
            }
            r.insert(p, e);
            proof {
                broadcast use vstd::seq_lib::group_to_multiset_ensures;
                let after = r@.map_values(|s: String| s@);
                assert(after =~= before.insert(p as int, e@));
                assert(after.remove(p as int) =~= before);
                assert(after.remove(p as int).to_multiset() =~= after.to_multiset().remove(after[p as int]));
                assert(after.to_multiset().remove(e@) =~= before.to_multiset());
                assert(after.to_multiset().count(e@) > 0) by {
                    assert(after.contains(e@)) by {
                        assert(after[p as int] == e@);
                    }
                }
                assert(after.to_multiset() =~= before.to_multiset().insert(e@));
                assert(after.to_multiset() =~= before.push(e@).to_multiset());
            }
        }
        i = i + 1;
    }
    assert(all.subrange(0, n as int) =~= all);
    r
}

} // verus!
