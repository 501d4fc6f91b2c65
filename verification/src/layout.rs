//! The on-disk layout of an archive: where the manifest of a resource lives.

use vstd::prelude::*;
use vstd::string::*;

verus! {

/// The path segment that a non-empty API group contributes, separator
/// included; an empty group contributes nothing.
pub open spec fn group_segment(group: Seq<char>) -> Seq<char> {
    if group.len() == 0 {
        Seq::empty()
    } else {
        "/"@ + group
    }
}

/// The file segment that a non-empty resource name contributes, separator
/// and extension included; an empty name contributes nothing.
pub open spec fn name_segment(name: Seq<char>) -> Seq<char> {
    if name.len() == 0 {
        Seq::empty()
    } else {
        "/"@ + name + ".yaml"@
    }
}

/// The path of a cluster-scoped resource below `root`.
pub open spec fn cluster_scoped_path(
    root: Seq<char>,
    name: Seq<char>,
    kind: Seq<char>,
    group: Seq<char>,
) -> Seq<char> {
    root + "/cluster-scoped-resources"@ + group_segment(group) + "/"@ + kind + name_segment(name)
}

/// The path of a resource of `namespace` below `root`.
pub open spec fn namespaced_path(
    root: Seq<char>,
    name: Seq<char>,
    namespace: Seq<char>,
    kind: Seq<char>,
    group: Seq<char>,
) -> Seq<char> {
    root + "/namespaces/"@ + namespace + group_segment(group) + "/"@ + kind + name_segment(name)
}

/// Where the manifest of a resource lives below `root`: an empty namespace
/// selects the cluster-scoped branch of the layout, any other the branch of
/// that namespace.
pub open spec fn manifest_path(
    root: Seq<char>,
    name: Seq<char>,
    namespace: Seq<char>,
    kind: Seq<char>,
    group: Seq<char>,
) -> Seq<char> {
    if namespace.len() == 0 {
        cluster_scoped_path(root, name, kind, group)
    } else {
        namespaced_path(root, name, namespace, kind, group)
    }
}

/// Build a path to a resource; nothing says that it exists.
///
/// With a name the path is that of one manifest file. With an empty name it
/// is that of the directory holding all manifests of the kind. With an empty
/// namespace the path leads to cluster-scoped resources. An empty group adds
/// no segment.
pub fn build_manifest_path(path: &str, name: &str, namespace: &str, kind: &str, group: &str) -> (manifestpath: String)
    ensures
        manifestpath@ == manifest_path(path@, name@, namespace@, kind@, group@),
        namespace@.len() == 0 ==> manifestpath@ == path@ + "/cluster-scoped-resources"@
            + group_segment(group@) + "/"@ + kind@ + name_segment(name@),
        namespace@.len() != 0 ==> manifestpath@ == path@ + "/namespaces/"@ + namespace@
            + group_segment(group@) + "/"@ + kind@ + name_segment(name@),
{
    let mut manifestpath = path.to_owned();

    if namespace.is_empty() {
        manifestpath.append("/cluster-scoped-resources");
    } else {
        manifestpath.append("/namespaces/");
        manifestpath.append(namespace);
    }

    if !group.is_empty() {
        manifestpath.append("/");
        manifestpath.append(group);
    }

    manifestpath.append("/");
    manifestpath.append(kind);

    if !name.is_empty() {
        manifestpath.append("/");
        manifestpath.append(name);
        manifestpath.append(".yaml");
    }

    manifestpath
}

/// The manifest of the cluster version below `root`. Its file is always named
/// `version.yaml`, whatever the resource in it is called.
pub fn cluster_version_manifest(root: &str) -> (manifestpath: String)
    ensures
        manifestpath@ == manifest_path(
            root@,
            Seq::empty(),
            Seq::empty(),
            "clusterversions"@,
            "config.openshift.io"@,
        ) + "/version.yaml"@,
        manifestpath@ == root@
            + "/cluster-scoped-resources/config.openshift.io/clusterversions/version.yaml"@,
{
    let mut manifestpath = build_manifest_path(root, "", "", "clusterversions", "config.openshift.io");
    manifestpath.append("/version.yaml");
    proof {
        reveal_strlit("");
        reveal_strlit("/");
        reveal_strlit("/cluster-scoped-resources");
        reveal_strlit("config.openshift.io");
        reveal_strlit("clusterversions");
        reveal_strlit("/version.yaml");
        reveal_strlit("/cluster-scoped-resources/config.openshift.io/clusterversions/version.yaml");
    }
    manifestpath
}

/// The directory below `root` that holds one manifest for each node.
pub fn nodes_directory(root: &str) -> (manifestpath: String)
    ensures
        manifestpath@ == manifest_path(root@, Seq::empty(), Seq::empty(), "nodes"@, "core"@),
        manifestpath@ == root@ + "/cluster-scoped-resources/core/nodes"@,
{
    let manifestpath = build_manifest_path(root, "", "", "nodes", "core");
    proof {
        reveal_strlit("");
        reveal_strlit("/");
        reveal_strlit("/cluster-scoped-resources");
        reveal_strlit("core");
        reveal_strlit("nodes");
        reveal_strlit("/cluster-scoped-resources/core/nodes");
    }
    manifestpath
}

/// Where the final segment of `path` begins: just after its last separator,
/// or at 0 where it has none.
pub open spec fn final_segment_start(path: Seq<char>) -> int
    decreases path.len(),
{
    if path.len() == 0 {
        0
    } else if path.last() == '/' {
        path.len() as int
    } else {
        final_segment_start(path.drop_last())
    }
}

/// What follows the last separator of `path`; all of `path` where it has no
/// separator.
pub open spec fn final_segment(path: Seq<char>) -> Seq<char> {
    path.subrange(final_segment_start(path), path.len() as int)
}

/// The final segment holds no separator, and it is the longest tail of the
/// path that holds none.
pub proof fn lemma_final_segment_start(path: Seq<char>)
    ensures
        0 <= final_segment_start(path) <= path.len(),
        forall|k: int| final_segment_start(path) <= k < path.len() ==> path[k] != '/',
        final_segment_start(path) == 0 || path[final_segment_start(path) - 1] == '/',
    decreases path.len(),
{
    if path.len() > 0 && path.last() != '/' {
        let shorter = path.drop_last();
        lemma_final_segment_start(shorter);
        assert forall|k: int| final_segment_start(path) <= k < path.len() implies path[k]
            != '/' by {
            if k < shorter.len() {
                assert(shorter[k] == path[k]);
            }
        }
    }
}

/// Only one position is preceded by a separator (or is the start of the
/// path) and followed by none.
pub proof fn lemma_final_segment_start_unique(path: Seq<char>, start: int)
    requires
        0 <= start <= path.len(),
        forall|k: int| start <= k < path.len() ==> path[k] != '/',
        start == 0 || path[start - 1] == '/',
    ensures
        start == final_segment_start(path),
    decreases path.len(),
{
    if path.len() > 0 && path.last() != '/' {
        lemma_final_segment_start_unique(path.drop_last(), start);
    }
}

/// The name that `path` ends in: what follows its last separator. For the
/// path of a directory that is the name of the directory, for the path of a
/// file the name of the file.
pub fn base_name(path: &str) -> (name: String)
    ensures
        name@ == final_segment(path@),
        // The name is the tail of the path,
        name@.len() <= path@.len(),
        name@ == path@.subrange(path@.len() - name@.len(), path@.len() as int),
        // it holds no separator,
        forall|k: int| 0 <= k < name@.len() ==> name@[k] != '/',
        // and no longer tail of the path is free of them.
        name@.len() == path@.len() || path@[path@.len() - name@.len() - 1] == '/',
{
    let n: usize = path.unicode_len();
    let mut start: usize = n;
    while start > 0 && path.get_char(start - 1) != '/'
        invariant
            start <= n,
            n == path@.len(),
            forall|k: int| start <= k < n ==> path@[k] != '/',
        decreases start,
    {
        start -= 1;
    }
    proof {
        lemma_final_segment_start_unique(path@, start as int);
        lemma_final_segment_start(path@);
    }
    path.substring_char(start, n).to_owned()
}

/// Whether a file name has the extension of a manifest: it ends in `.yaml`
/// and something stands before that.
pub open spec fn has_manifest_extension(name: Seq<char>) -> bool {
    let extension = ".yaml"@;
    name.len() > extension.len() && name.subrange(name.len() - extension.len(), name.len() as int)
        == extension
}

/// Whether the entry at `path` is a manifest file, going by the name of its
/// final segment.
pub open spec fn names_manifest(path: Seq<char>) -> bool {
    has_manifest_extension(final_segment(path))
}

/// Whether the entry at `path`, a bare file name or a longer path, is named
/// as a manifest file is.
pub fn is_manifest_file(path: &str) -> (b: bool)
    ensures
        b == names_manifest(path@),
{
    let name = base_name(path);
    let extension = ".yaml";
    let n: usize = name.as_str().unicode_len();
    let m: usize = extension.unicode_len();
    if n <= m {
        return false;
    }
    let tail = name.as_str().substring_char(n - m, n).to_owned();
    tail == extension.to_owned()
}

/// The paths of a list, each as its sequence of characters.
pub open spec fn path_views(paths: Seq<String>) -> Seq<Seq<char>> {
    paths.map_values(|path: String| path@)
}

/// Those of `entries` that are named as a manifest file is, in their order.
pub open spec fn manifest_entries(entries: Seq<Seq<char>>) -> Seq<Seq<char>> {
    entries.filter(|entry: Seq<char>| names_manifest(entry))
}

/// Pick the manifest files among the entries of a directory: those whose
/// name has the extension of a manifest, in the order in which they came.
pub fn manifest_files(entries: Vec<String>) -> (files: Vec<String>)
    ensures
        path_views(files@) == manifest_entries(path_views(entries@)),
{
    let mut files: Vec<String> = Vec::new();
    let ghost paths = path_views(entries@);
    for entry in it: entries.into_iter()
        invariant
            it.seq() == entries@,
            paths == path_views(entries@),
            path_views(files@) == manifest_entries(paths.take(it.index())),
    {
        proof {
            let upto = paths.take(it.index() + 1);
            assert(upto.drop_last() == paths.take(it.index()));
            assert(upto.last() == entry@);
            reveal(Seq::filter);
            assert(manifest_entries(upto) == if names_manifest(entry@) {
                path_views(files@).push(entry@)
            } else {
                path_views(files@)
            });
        }
        if is_manifest_file(entry.as_str()) {
            let ghost before = files@;
            files.push(entry);
            assert(path_views(files@) == path_views(before).push(entry@));
        }
    }
    proof {
        assert(paths.take(paths.len() as int) == paths);
    }
    files
}

} // verus!
