//! The summary of an archive: its title, the version of its cluster and its
//! nodes.

use vstd::prelude::*;

use crate::document::{Document, DocumentView};
use crate::layout::{base_name, final_segment};

verus! {

/// A node of the cluster, as its manifest describes it.
#[derive(Debug, PartialEq, Eq)]
pub struct Node {
    pub manifest: Document,
}

/// The mathematical content of a [`Node`].
pub struct NodeView {
    pub manifest: DocumentView,
}

impl View for Node {
    type V = NodeView;

    open spec fn view(&self) -> NodeView {
        NodeView { manifest: self.manifest@ }
    }
}

impl Node {
    /// Decode a node from its manifest.
    pub fn from(manifest: Document) -> (node: Node)
        ensures
            node@ == (NodeView { manifest: manifest@ }),
    {
        Node { manifest }
    }
}

/// What an archive says of its cluster.
#[derive(Debug, PartialEq, Eq)]
pub struct MustGather {
    pub title: String,
    pub version: String,
    pub nodes: Vec<Node>,
}

/// The mathematical content of a [`MustGather`].
pub struct MustGatherView {
    pub title: Seq<char>,
    pub version: Seq<char>,
    pub nodes: Seq<NodeView>,
}

impl View for MustGather {
    type V = MustGatherView;

    open spec fn view(&self) -> MustGatherView {
        MustGatherView {
            title: self.title@,
            version: self.version@,
            nodes: node_views(self.nodes@),
        }
    }
}

/// The contents of a list of nodes.
pub open spec fn node_views(nodes: Seq<Node>) -> Seq<NodeView> {
    nodes.map_values(|node: Node| node@)
}

/// The content of a manifest; nothing for one that did not load.
pub open spec fn manifest_view(manifest: Option<Document>) -> Option<DocumentView> {
    match manifest {
        Some(document) => Some(document@),
        None => None,
    }
}

/// The contents of a list of manifests, each of which may have failed to
/// load.
pub open spec fn manifest_views(manifests: Seq<Option<Document>>) -> Seq<Option<DocumentView>> {
    manifests.map_values(|manifest: Option<Document>| manifest_view(manifest))
}

/// The keys that lead to the version in the manifest of the cluster version,
/// outermost first.
pub open spec fn version_keys() -> Seq<Seq<char>> {
    seq!["status"@, "desired"@, "version"@]
}

/// The version that the manifest of the cluster version gives: the string
/// under `status`, `desired`, `version`; `Unknown` where the manifest did
/// not load or holds no string there.
pub open spec fn cluster_version(manifest: Option<DocumentView>) -> Seq<char> {
    match manifest {
        Some(document) => match document.text_at(version_keys()) {
            Some(version) => version,
            None => "Unknown"@,
        },
        None => "Unknown"@,
    }
}

/// The content of a manifest that may have failed to load.
pub open spec fn loaded_view(manifest: Option<&Document>) -> Option<DocumentView> {
    match manifest {
        Some(document) => Some(document@),
        None => None,
    }
}

/// Get the version string.
/// If unable to determine the version, "Unknown" will be returned.
pub fn get_cluster_version(manifest: Option<&Document>) -> (version: String)
    ensures
        version@ == cluster_version(loaded_view(manifest)),
        manifest is None ==> version@ == "Unknown"@,
{
    let keys: [&str; 3] = ["status", "desired", "version"];
    proof {
        assert(crate::document::key_views(keys@) == version_keys());
    }
    let found = match manifest {
        Some(document) => document.text_at(keys.as_slice()),
        None => None,
    };
    match found {
        Some(version) => version.to_owned(),
        None => "Unknown".to_owned(),
    }
}

/// The node of a manifest that loaded.
pub open spec fn decoded(manifest: Option<DocumentView>) -> Option<NodeView> {
    match manifest {
        Some(document) => Some(NodeView { manifest: document }),
        None => None,
    }
}

/// The nodes of the manifests that loaded, in the order of the manifests.
pub open spec fn loaded_nodes(manifests: Seq<Option<DocumentView>>) -> Seq<NodeView> {
    manifests.filter_map(|manifest: Option<DocumentView>| decoded(manifest))
}

/// The nodes of two runs of manifests, one after the other, are those of the
/// first run followed by those of the second.
pub proof fn lemma_loaded_nodes_concat(
    first: Seq<Option<DocumentView>>,
    second: Seq<Option<DocumentView>>,
)
    ensures
        loaded_nodes(first + second) == loaded_nodes(first) + loaded_nodes(second),
    decreases second.len(),
{
    if second.len() == 0 {
        assert(first + second == first);
    } else {
        assert((first + second).drop_last() == first + second.drop_last());
        lemma_loaded_nodes_concat(first, second.drop_last());
    }
}

/// A manifest that did not load is passed over: the nodes are those of the
/// manifests before it and after it, as if it had not been there.
pub proof fn lemma_failed_manifest_is_skipped(
    before: Seq<Option<DocumentView>>,
    after: Seq<Option<DocumentView>>,
)
    ensures
        loaded_nodes(before + seq![None] + after) == loaded_nodes(before + after),
        loaded_nodes(before + seq![None] + after) == loaded_nodes(before) + loaded_nodes(after),
{
    let failed: Seq<Option<DocumentView>> = seq![None];
    assert(failed.drop_last() == Seq::<Option<DocumentView>>::empty());
    assert(loaded_nodes(failed) == Seq::<NodeView>::empty()) by {
        reveal_with_fuel(Seq::filter_map, 2);
    }
    lemma_loaded_nodes_concat(before, failed);
    lemma_loaded_nodes_concat(before + failed, after);
    lemma_loaded_nodes_concat(before, after);
}

/// Where every manifest loaded, there is a node for each, in the order of
/// the manifests.
pub proof fn lemma_loaded_manifests_are_kept(manifests: Seq<Option<DocumentView>>)
    requires
        forall|i: int| 0 <= i < manifests.len() ==> manifests[i] is Some,
    ensures
        loaded_nodes(manifests).len() == manifests.len(),
        forall|i: int|
            0 <= i < manifests.len() ==> loaded_nodes(manifests)[i] == (NodeView {
                manifest: manifests[i]->0,
            }),
    decreases manifests.len(),
{
    if manifests.len() > 0 {
        lemma_loaded_manifests_are_kept(manifests.drop_last());
    }
}

/// Get all the nodes in the cluster: one for each manifest that loaded. A
/// manifest that did not load is passed over.
pub fn get_nodes(manifests: Vec<Option<Document>>) -> (nodes: Vec<Node>)
    ensures
        node_views(nodes@) == loaded_nodes(manifest_views(manifests@)),
{
    let mut nodes: Vec<Node> = Vec::new();
    let ghost contents = manifest_views(manifests@);
    for manifest in it: manifests.into_iter()
        invariant
            it.seq() == manifests@,
            contents == manifest_views(manifests@),
            node_views(nodes@) == loaded_nodes(contents.take(it.index())),
    {
        proof {
            let upto = contents.take(it.index() + 1);
            assert(upto.drop_last() == contents.take(it.index()));
            assert(upto.last() == manifest_view(manifest));
            assert(loaded_nodes(upto) == match decoded(manifest_view(manifest)) {
                Some(node) => node_views(nodes@) + seq![node],
                None => node_views(nodes@),
            });
        }
        match manifest {
            Some(document) => {
                let ghost before = nodes@;
                nodes.push(Node::from(document));
                assert(node_views(nodes@) == node_views(before) + seq![
                    NodeView { manifest: document@ },
                ]);
            },
            None => {},
        }
    }
    proof {
        assert(contents.take(contents.len() as int) == contents);
    }
    nodes
}

impl MustGather {
    /// Build a MustGather from the root of an archive and what was loaded
    /// from it: the manifest of the cluster version, where it loaded, and
    /// the manifests of the nodes, each where it loaded.
    ///
    /// The title is the name of the root directory. A version manifest that
    /// did not load, or holds no version, gives the version `Unknown`. A
    /// node manifest that did not load gives no node.
    pub fn from(
        path: String,
        version_manifest: Option<&Document>,
        node_manifests: Vec<Option<Document>>,
    ) -> (summary: MustGather)
        ensures
            summary@ == (MustGatherView {
                title: final_segment(path@),
                version: cluster_version(loaded_view(version_manifest)),
                nodes: loaded_nodes(manifest_views(node_manifests@)),
            }),
    {
        let title = base_name(path.as_str());
        let version = get_cluster_version(version_manifest);
        let nodes = get_nodes(node_manifests);

        MustGather { title, version, nodes }
    }
}

} // verus!
