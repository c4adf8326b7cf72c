//! Device paths as sequences of typed nodes, and the rewrite that swaps the
//! trailing file-path node of a path for a new one.

use vstd::prelude::*;

verus! {

/// Device type of media nodes.
pub const MEDIA_TYPE: u8 = 0x04;

/// Sub-type of a media node that carries a file name.
pub const MEDIA_FILE_PATH_SUBTYPE: u8 = 0x04;

/// One node of a device path: its (type, sub-type) tag and its payload, the
/// bytes that follow the four-byte node header.
pub struct PathNode {
    pub device_type: u8,
    pub sub_type: u8,
    pub data: Vec<u8>,
}

/// What a node stands for, with its payload as a sequence of bytes.
pub ghost struct NodeView {
    pub device_type: u8,
    pub sub_type: u8,
    pub data: Seq<u8>,
}

impl View for PathNode {
    type V = NodeView;

    open spec fn view(&self) -> NodeView {
        NodeView { device_type: self.device_type, sub_type: self.sub_type, data: self.data@ }
    }
}

/// The nodes of a path, each as its view.
pub open spec fn path_view(p: Seq<PathNode>) -> Seq<NodeView> {
    p.map_values(|n: PathNode| n@)
}

/// A node tagged as a media file-path node.
pub open spec fn is_file_path(n: NodeView) -> bool {
    n.device_type == MEDIA_TYPE && n.sub_type == MEDIA_FILE_PATH_SUBTYPE
}

/// `k` is where the device part of `p` ends: the index of its first file-path
/// node, or its length when it has none.
pub open spec fn is_cut(p: Seq<NodeView>, k: int) -> bool {
    &&& 0 <= k <= p.len()
    &&& forall|i: int| 0 <= i < k ==> !is_file_path(#[trigger] p[i])
    &&& k < p.len() ==> is_file_path(p[k])
}

/// The number of nodes before the first file-path node of `p`.
pub open spec fn cut_index(p: Seq<NodeView>) -> nat
    decreases p.len(),
{
    if p.len() == 0 || is_file_path(p[0]) {
        0
    } else {
        1 + cut_index(p.drop_first())
    }
}

/// The bytes of the UTF-16 code units `s`, low byte first.
pub open spec fn le_bytes(s: Seq<u16>) -> Seq<u8> {
    Seq::new(
        2 * s.len(),
        |i: int|
            if i % 2 == 0 {
                (s[i / 2] % 256) as u8
            } else {
                (s[i / 2] / 256) as u8
            },
    )
}

/// The file-path node naming `name` (code units without the terminator): its
/// payload is the name in UTF-16, little-endian, followed by a NUL unit.
pub open spec fn file_node(name: Seq<u16>) -> NodeView {
    NodeView {
        device_type: MEDIA_TYPE,
        sub_type: MEDIA_FILE_PATH_SUBTYPE,
        data: le_bytes(name) + seq![0u8, 0u8],
    }
}

/// The path to the file `name` beside the file that `p` leads to: the nodes of
/// `p` before its first file-path node, then one file-path node for `name`.
pub open spec fn sibling_path(p: Seq<NodeView>, name: Seq<u16>) -> Seq<NodeView> {
    p.take(cut_index(p) as int).push(file_node(name))
}

/// The cut of a path is unique, and `cut_index` is it.
pub proof fn lemma_cut_index(p: Seq<NodeView>, k: int)
    requires
        is_cut(p, k),
    ensures
        cut_index(p) == k,
    decreases p.len(),
{
    if p.len() > 0 && !is_file_path(p[0]) {
        assert(k > 0);
        let q = p.drop_first();
        assert forall|i: int| 0 <= i < k - 1 implies !is_file_path(#[trigger] q[i]) by {
            assert(q[i] == p[i + 1]);
        }
        if k - 1 < q.len() {
            assert(q[k - 1] == p[k]);
        }
        lemma_cut_index(q, k - 1);
    }
}

/// `cut_index` of a path meets the definition of its cut.
pub proof fn lemma_cut_index_is_cut(p: Seq<NodeView>)
    ensures
        is_cut(p, cut_index(p) as int),
    decreases p.len(),
{
    if p.len() > 0 && !is_file_path(p[0]) {
        let q = p.drop_first();
        lemma_cut_index_is_cut(q);
        let k = cut_index(p) as int;
        assert forall|i: int| 0 <= i < k implies !is_file_path(#[trigger] p[i]) by {
            if i > 0 {
                assert(p[i] == q[i - 1]);
            }
        }
        if k < p.len() {
            assert(p[k] == q[k - 1]);
        }
    }
}

/// Builds the file-path node for `name`, given as UTF-16 code units without
/// the terminating NUL.
pub fn file_path_node(name: &Vec<u16>) -> (r: PathNode)
    requires
        name@.len() < 0x4000_0000,
    ensures
        r@ == file_node(name@),
{
    let mut data: Vec<u8> = Vec::new();
    let mut i: usize = 0;
    while i < name.len()
        invariant
            i <= name@.len() < 0x4000_0000,
            data@ =~= le_bytes(name@.take(i as int)),
        decreases name@.len() - i,
    {
        let u = name[i];
        data.push((u % 256) as u8);
        data.push((u / 256) as u8);
        i = i + 1;
        assert(data@ =~= le_bytes(name@.take(i as int)));
    }
    data.push(0u8);
    data.push(0u8);
    assert(name@.take(i as int) =~= name@);
    assert(data@ =~= le_bytes(name@) + seq![0u8, 0u8]);
    PathNode { device_type: MEDIA_TYPE, sub_type: MEDIA_FILE_PATH_SUBTYPE, data }
}

impl PathNode {
    /// Whether this node is tagged as a media file-path node.
    pub fn is_file_path_node(&self) -> (r: bool)
        ensures
            r == is_file_path(self@),
    {
        self.device_type == MEDIA_TYPE && self.sub_type == MEDIA_FILE_PATH_SUBTYPE
    }
}

fn copy_node(n: &PathNode) -> (r: PathNode)
    ensures
        r@ == n@,
{
    PathNode { device_type: n.device_type, sub_type: n.sub_type, data: n.data.clone() }
}

/// Derives, from the device path `own_path` of the running image, the path of
/// the file `target_name` on the same device: every node before the first
/// file-path node is kept, and one file-path node for `target_name` follows.
pub fn derive_sibling_path(own_path: &Vec<PathNode>, target_name: &Vec<u16>) -> (r: Vec<PathNode>)
    requires
        target_name@.len() < 0x4000_0000,
    ensures
        path_view(r@) == sibling_path(path_view(own_path@), target_name@),
{
    let ghost p = path_view(own_path@);
    let mut out: Vec<PathNode> = Vec::new();
    let mut i: usize = 0;
    while i < own_path.len() && !own_path[i].is_file_path_node()
        invariant
            i <= own_path@.len(),
            p == path_view(own_path@),
            forall|j: int| 0 <= j < i ==> !is_file_path(#[trigger] p[j]),
            out@.len() == i,
            path_view(out@) =~= p.take(i as int),
        decreases own_path@.len() - i,
    {
        assert(p[i as int] == own_path@[i as int]@);
        let ghost before = out@;
        out.push(copy_node(&own_path[i]));
        i = i + 1;
        assert forall|j: int| 0 <= j < i implies #[trigger] path_view(out@)[j] == p[j] by {
            if j < i - 1 {
                assert(out@[j] == before[j]);
                assert(path_view(before)[j] == p.take(i - 1)[j]);
            }
        }
        assert(path_view(out@) =~= p.take(i as int));
    }
    proof {
        lemma_cut_index(p, i as int);
    }
    out.push(file_path_node(target_name));
    assert(path_view(out@) =~= sibling_path(p, target_name@));
    out
}

/// A path with exactly one file-path node, at index `k`, keeps its first `k`
/// nodes and then ends in the file-path node for `name`, whatever `k` is.
pub proof fn lemma_suffix_replaced(p: Seq<NodeView>, k: int, name: Seq<u16>)
    requires
        0 <= k < p.len(),
        is_file_path(p[k]),
        forall|i: int| 0 <= i < p.len() && i != k ==> !is_file_path(#[trigger] p[i]),
    ensures
        sibling_path(p, name).len() == k + 1,
        sibling_path(p, name).take(k) == p.take(k),
        sibling_path(p, name).last() == file_node(name),
        is_file_path(sibling_path(p, name).last()),
{
    lemma_cut_index(p, k);
    assert(sibling_path(p, name).take(k) =~= p.take(k));
}

/// A path without any file-path node is kept whole, and the file-path node
/// for `name` is appended to it.
pub proof fn lemma_whole_path_kept(p: Seq<NodeView>, name: Seq<u16>)
    requires
        forall|i: int| 0 <= i < p.len() ==> !is_file_path(#[trigger] p[i]),
    ensures
        sibling_path(p, name) == p.push(file_node(name)),
{
    lemma_cut_index(p, p.len() as int);
    assert(p.take(p.len() as int) =~= p);
}

/// Two derivations from the same path and name, each into storage of its
/// own, give paths that are equal node by node.
pub proof fn lemma_derivation_repeatable(
    own_path: Seq<PathNode>,
    name: Seq<u16>,
    first: Seq<PathNode>,
    second: Seq<PathNode>,
)
    requires
        path_view(first) == sibling_path(path_view(own_path), name),
        path_view(second) == sibling_path(path_view(own_path), name),
    ensures
        first.len() == second.len(),
        forall|i: int| 0 <= i < first.len() ==> #[trigger] first[i]@ == second[i]@,
{
    assert(path_view(first).len() == first.len());
    assert(path_view(second).len() == second.len());
    assert forall|i: int| 0 <= i < first.len() implies #[trigger] first[i]@ == second[i]@ by {
        assert(path_view(first)[i] == first[i]@);
        assert(path_view(second)[i] == second[i]@);
    }
}

} // verus!
