//! Resolution: every clip path made canonical against the manifest's own
//! directory, and every unnamed clip named after its declared path.
//!
//! Making a path canonical reads the file system, so the caller does it and
//! hands the outcomes in; the rules around them live here.
use vstd::prelude::*;
use crate::decode::{item_of, lookup, required_text};
use crate::document::Node;
use crate::error::ManifestError;
use vstd::string::StringExecFns;
use crate::manifest::{AudioFile, AudioFileView, Manifest, ManifestView};
use crate::paths::{bytes_of, join_of, join_path, parent_dir, parent_of};

verus! {

/// The directory against which the clip paths of a manifest resolve, given
/// the outcome of making the manifest's own path canonical: the parent of
/// that canonical path.
pub fn resolution_base(canonical_manifest: Result<String, String>) -> (r: Result<
    String,
    ManifestError,
>)
    ensures
        match canonical_manifest {
            Err(cause) => r == Err::<String, ManifestError>(ManifestError::BaseResolution(cause)),
            Ok(p) => match r {
                Ok(d) => parent_of(bytes_of(p@)) == Some(bytes_of(d@)),
                Err(e) => parent_of(bytes_of(p@)) is None && e is NoParentDirectory,
            },
        },
{
    match canonical_manifest {
        Err(cause) => Err(ManifestError::BaseResolution(cause)),
        Ok(p) => match parent_dir(p.as_str()) {
            Some(d) => Ok(d),
            None => Err(ManifestError::NoParentDirectory),
        },
    }
}

/// The path of each clip taken relative to `base`, in order: what the
/// caller is to make canonical.
pub fn entry_targets(manifest: &Manifest, base: &str) -> (r: Vec<String>)
    ensures
        r@.len() == manifest.items@.len(),
        forall|i: int|
            0 <= i < r@.len() ==> bytes_of(#[trigger] r@[i]@) == join_of(
                bytes_of(base@),
                bytes_of(manifest.items@[i].path@),
            ),
{
    let mut out: Vec<String> = Vec::new();
    let mut i: usize = 0;
    while i < manifest.items.len()
        invariant
            i <= manifest.items@.len(),
            out@.len() == i,
            forall|j: int|
                0 <= j < i ==> bytes_of(#[trigger] out@[j]@) == join_of(
                    bytes_of(base@),
                    bytes_of(manifest.items@[j].path@),
                ),
        decreases manifest.items.len() - i,
    {
        out.push(join_path(base, manifest.items[i].path.as_str()));
        i = i + 1;
    }
    out
}

/// A clip once its path has been made `canonical`: an empty name becomes
/// the path as declared, and the path becomes the canonical one.
pub open spec fn resolved_item(a: AudioFileView, canonical: Seq<char>) -> AudioFileView {
    AudioFileView {
        name: if a.name.len() == 0 {
            a.path
        } else {
            a.name
        },
        directions: a.directions,
        path: canonical,
        length: a.length,
        volume: a.volume,
        start_at: a.start_at,
        stop_at: a.stop_at,
        fade_in: a.fade_in,
        fade_out: a.fade_out,
        actions: a.actions,
    }
}

/// A manifest once each clip `i` has been made canonical as `canonical[i]`.
pub open spec fn resolved_manifest(m: ManifestView, canonical: Seq<Seq<char>>) -> ManifestView {
    ManifestView {
        items: Seq::new(m.items.len(), |i: int| resolved_item(m.items[i], canonical[i])),
    }
}

/// The paths that successful outcomes carry.
pub open spec fn canonical_paths(outcomes: Seq<Result<String, String>>) -> Seq<Seq<char>> {
    outcomes.map_values(|o: Result<String, String>| o->Ok_0@)
}

/// Resolution keeps the clips and their order: N clips in give N clips
/// out, the i-th coming from the i-th with only its path (and an empty
/// name) replaced.
pub proof fn lemma_resolution_keeps_order(m: ManifestView, canonical: Seq<Seq<char>>)
    requires
        canonical.len() == m.items.len(),
    ensures
        resolved_manifest(m, canonical).items.len() == m.items.len(),
        forall|i: int|
            #![trigger resolved_manifest(m, canonical).items[i]]
            0 <= i < m.items.len() ==> {
                let a = m.items[i];
                let b = resolved_manifest(m, canonical).items[i];
                &&& b.path == canonical[i]
                &&& a.name.len() > 0 ==> b.name == a.name
                &&& b.directions == a.directions
                &&& b.length == a.length
                &&& b.volume == a.volume
                &&& b.start_at == a.start_at
                &&& b.stop_at == a.stop_at
                &&& b.fade_in == a.fade_in
                &&& b.fade_out == a.fade_out
                &&& b.actions == a.actions
            },
{
}

/// A clip that states no `name` is named after its path as declared, not
/// after the canonical path it resolves to.
pub proof fn lemma_unnamed_item_takes_declared_path(n: Node, canonical: Seq<char>)
    requires
        n matches Node::Table(entries) && lookup(entries@, "name"@) is None,
        item_of(n) is Some,
    ensures
        resolved_item(item_of(n)->0, canonical).name == item_of(n)->0.path,
        n matches Node::Table(entries) && item_of(n)->0.path == required_text(
            entries@,
            "path"@,
        )->0,
{
}

/// A clip fails resolution when its declared path is empty (it names the
/// manifest's directory, not a file) or when its target could not be made
/// canonical.
pub open spec fn entry_fails(a: AudioFileView, outcome: Result<String, String>) -> bool {
    a.path.len() == 0 || outcome is Err
}

/// The cause reported for a clip that fails resolution.
pub open spec fn entry_cause(a: AudioFileView, outcome: Result<String, String>) -> Seq<char> {
    if a.path.len() == 0 {
        "empty path names no file"@
    } else {
        outcome->Err_0@
    }
}

/// `k` is the first clip of `m` that fails, given the outcomes.
pub open spec fn first_failure(m: ManifestView, outcomes: Seq<Result<String, String>>, k: int) -> bool {
    &&& 0 <= k < outcomes.len()
    &&& entry_fails(m.items[k], outcomes[k])
    &&& forall|j: int| 0 <= j < k ==> !entry_fails(m.items[j], #[trigger] outcomes[j])
}

/// Finishes resolution, given for each clip in order the outcome of making
/// its target (see [`entry_targets`]) canonical. All or nothing: the first
/// clip that fails (an empty declared path, or a failed outcome) fails the
/// whole manifest, naming the clip's declared path. Every clip of a
/// resolved manifest has a name.
pub fn apply_resolution(manifest: Manifest, canonical: Vec<Result<String, String>>) -> (r: Result<
    Manifest,
    ManifestError,
>)
    requires
        canonical@.len() == manifest.items@.len(),
    ensures
        r is Ok <==> forall|i: int|
            0 <= i < canonical@.len() ==> !entry_fails(manifest@.items[i], #[trigger] canonical@[i]),
        match r {
            Ok(m) => {
                &&& m@ == resolved_manifest(manifest@, canonical_paths(canonical@))
                &&& forall|i: int| 0 <= i < m@.items.len() ==> (#[trigger] m@.items[i]).name.len() > 0
            },
            Err(e) => exists|k: int|
                first_failure(manifest@, canonical@, k) && (e matches ManifestError::EntryResolution {
                    path,
                    cause,
                } && path == manifest.items@[k].path && cause@ == entry_cause(
                    manifest@.items[k],
                    canonical@[k],
                )),
        },
{
    let ghost before = manifest@;
    let ghost declared = manifest.items@;
    let mut out: Vec<AudioFile> = Vec::new();
    let n = canonical.len();
    let mut i: usize = 0;
    for item in it: manifest.items
        invariant
            it.seq() == declared,
            before.items == declared.map_values(|a: AudioFile| a@),
            canonical@.len() == declared.len(),
            n == canonical@.len(),
            i == it.index(),
            i <= n,
            out@.len() == i,
            forall|j: int| 0 <= j < i ==> !entry_fails(before.items[j], #[trigger] canonical@[j]),
            forall|j: int|
                0 <= j < i ==> #[trigger] out@[j]@ == resolved_item(
                    before.items[j],
                    canonical@[j]->Ok_0@,
                ),
    {
        let mut item = item;
        if item.path.as_str().is_empty() {
            let cause = String::from_str("empty path names no file");
            proof {
                assert(item == declared[i as int]);
                assert(item@ == before.items[i as int]);
                assert(entry_fails(before.items[i as int], canonical@[i as int]));
                assert(first_failure(before, canonical@, i as int));
                assert(cause@ == entry_cause(before.items[i as int], canonical@[i as int]));
            }
            return Err(ManifestError::EntryResolution { path: item.path, cause });
        }
        match &canonical[i] {
            Ok(p) => {
                if item.name.as_str().is_empty() {
                    item.name = item.path.clone();
                }
                item.path = p.clone();
                proof {
                    assert(item.actions@.map_values(|a: crate::manifest::ActionButton| a@)
                        == before.items[i as int].actions);
                }
                out.push(item);
            },
            Err(cause) => {
                let cause = cause.clone();
                proof {
                    assert(item == declared[i as int]);
                    assert(first_failure(before, canonical@, i as int));
                }
                let e = ManifestError::EntryResolution { path: item.path, cause };
                proof {
                    assert(e matches ManifestError::EntryResolution { path, cause } && path
                        == manifest.items@[i as int].path && cause@ == entry_cause(
                        manifest@.items[i as int],
                        canonical@[i as int],
                    ));
                }
                return Err(e);
            },
        }
        i = i + 1;
    }
    proof {
        assert(out@.map_values(|a: AudioFile| a@) =~= resolved_manifest(
            before,
            canonical_paths(canonical@),
        ).items);
    }
    Ok(Manifest { items: out })
}

} // verus!
