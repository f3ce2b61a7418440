//! The node arena: documents, node records, and node handles.
//!
//! A [`Document`] owns one arena holding every node of a single parse, each
//! addressed by an integer id. Id 0 is reserved as the "absent" sentinel and
//! valid ids run from 1 to the arena length; every child id stored inside a
//! container record points back into the same arena. A [`Node`] is a cheap
//! copyable handle: a shared reference to the owning document plus an id.
use vstd::prelude::*;

use crate::errors::RootError;

verus! {

/// The source-text quoting/formatting hint attached to a scalar.
#[derive(Clone, Copy, Debug, PartialEq, Eq, Structural)]
pub enum Style {
    /// No preference recorded; the emitter chooses.
    Any,
    /// The plain (unquoted) style.
    Plain,
    /// The single-quoted style.
    SingleQuoted,
    /// The double-quoted style.
    DoubleQuoted,
    /// The literal block style.
    Literal,
    /// The folded block style.
    Folded,
}

/// One key/value entry of a mapping node, by node id.
#[derive(Clone, Copy, Debug, PartialEq, Eq, Structural)]
pub struct Pair {
    /// The id of the key node.
    pub key: usize,
    /// The id of the value node.
    pub value: usize,
}

/// One arena record: the variant data of a single node.
#[derive(Clone, Debug, PartialEq)]
pub enum NodeData {
    /// The sentinel state: no node.
    Absent,
    /// A leaf holding raw bytes; the bytes are only *interpretable* as
    /// UTF-8, decoding them may fail.
    Scalar {
        /// The raw bytes of the scalar value.
        text: Vec<u8>,
        /// The quoting/formatting hint.
        style: Style,
    },
    /// An ordered container of child node ids.
    Sequence {
        /// The child ids, in source order.
        items: Vec<usize>,
    },
    /// An ordered container of key/value id pairs; keys need not be unique.
    Mapping {
        /// The pairs, in source order.
        pairs: Vec<Pair>,
    },
}

/// The mathematical value of one arena record.
#[verifier::ext_equal]
pub enum NodeV {
    /// No node.
    Absent,
    /// A leaf: its bytes and its style.
    Scalar { text: Seq<u8>, style: Style },
    /// An ordered container of child ids.
    Sequence { items: Seq<usize> },
    /// An ordered container of key/value id pairs.
    Mapping { pairs: Seq<Pair> },
}

impl View for NodeData {
    type V = NodeV;

    open spec fn view(&self) -> NodeV {
        match self {
            NodeData::Absent => NodeV::Absent,
            NodeData::Scalar { text, style } => NodeV::Scalar { text: text@, style: *style },
            NodeData::Sequence { items } => NodeV::Sequence { items: items@ },
            NodeData::Mapping { pairs } => NodeV::Mapping { pairs: pairs@ },
        }
    }
}

/// The mathematical value of a sequence of arena records.
pub open spec fn recs_view(rs: Seq<NodeData>) -> Seq<NodeV> {
    rs.map_values(|r: NodeData| r@)
}

/// The mathematical value of a whole document: its arena and its root id.
#[verifier::ext_equal]
pub struct DocV {
    /// The node records, with the node of id `i` at position `i - 1`.
    pub nodes: Seq<NodeV>,
    /// The id of the root node, or 0 when the document is empty.
    pub root: int,
}

/// The record a given id resolves to: the sentinel id 0 and every id beyond
/// the arena resolve to `Absent`, never to a phantom node.
pub open spec fn node_at(d: DocV, id: int) -> NodeV {
    if 1 <= id <= d.nodes.len() {
        d.nodes[id - 1]
    } else {
        NodeV::Absent
    }
}

/// Whether every id of a list lies inside an arena of length `len`.
pub open spec fn ids_ok(items: Seq<usize>, len: int) -> bool {
    forall|i: int| 0 <= i < items.len() ==> 1 <= #[trigger] items[i] <= len
}

/// Whether every key and value id of a pair list lies inside an arena of
/// length `len`.
pub open spec fn pair_ids_ok(pairs: Seq<Pair>, len: int) -> bool {
    forall|i: int|
        0 <= i < pairs.len() ==> 1 <= (#[trigger] pairs[i]).key <= len && 1 <= pairs[i].value <= len
}

/// Whether one record only references ids inside an arena of length `len`.
pub open spec fn node_children_in_range(n: NodeV, len: int) -> bool {
    match n {
        NodeV::Sequence { items } => ids_ok(items, len),
        NodeV::Mapping { pairs } => pair_ids_ok(pairs, len),
        _ => true,
    }
}

/// The arena invariant: no container references an id outside the arena.
pub open spec fn records_wf(nodes: Seq<NodeV>) -> bool {
    forall|i: int|
        0 <= i < nodes.len() ==> node_children_in_range(#[trigger] nodes[i], nodes.len() as int)
}

/// The child references a pair list makes, keys and values interleaved.
pub open spec fn pair_refs(pairs: Seq<Pair>) -> Seq<usize>
    decreases pairs.len(),
{
    if pairs.len() == 0 {
        Seq::empty()
    } else {
        pair_refs(pairs.drop_last()) + seq![pairs.last().key, pairs.last().value]
    }
}

/// The child references one record makes, in order.
pub open spec fn node_child_refs(n: NodeV) -> Seq<usize> {
    match n {
        NodeV::Sequence { items } => items,
        NodeV::Mapping { pairs } => pair_refs(pairs),
        _ => Seq::empty(),
    }
}

/// Every child reference any record of the arena makes, in arena order.
pub open spec fn all_child_refs(nodes: Seq<NodeV>) -> Seq<usize>
    decreases nodes.len(),
{
    if nodes.len() == 0 {
        Seq::empty()
    } else {
        all_child_refs(nodes.drop_last()) + node_child_refs(nodes.last())
    }
}

/// Whether the arena is strictly tree-shaped: no node is referenced as a
/// child twice, and the root (node 1) is referenced by nobody. The model is
/// alias-free, so only such arenas have an emitted form.
pub open spec fn tree_shaped(nodes: Seq<NodeV>) -> bool {
    all_child_refs(nodes).no_duplicates() && !all_child_refs(nodes).contains(1)
}

/// An immutable document: one arena of node records plus the root id.
///
/// A document is built atomically — by the loader, or from a complete record
/// list — and never mutated afterwards, so any number of [`Node`] handles may
/// read it concurrently.
#[derive(Debug, PartialEq)]
pub struct Document {
    nodes: Vec<NodeData>,
    root_id: usize,
}

impl View for Document {
    type V = DocV;

    closed spec fn view(&self) -> DocV {
        DocV { nodes: recs_view(self.nodes@), root: self.root_id as int }
    }
}

impl Document {
    #[verifier::type_invariant]
    spec fn wf(self) -> bool {
        &&& records_wf(self@.nodes)
        &&& self.root_id <= self.nodes@.len()
        &&& self.nodes@.len() == 0 ==> self.root_id == 0
    }

    /// An empty document: no nodes, no root.
    pub fn new() -> (d: Document)
        ensures
            d@.nodes.len() == 0,
            d@.root == 0,
    {
        Document { nodes: Vec::new(), root_id: 0 }
    }

    /// Builds a document from a complete list of records, the record of id
    /// `i` standing at position `i - 1`; the root is node 1 when the list is
    /// not empty. Returns `None` exactly when some container references an
    /// id outside the list, so that a well-formed arena is the only kind a
    /// `Document` can hold.
    pub fn from_records(records: Vec<NodeData>) -> (r: Option<Document>)
        ensures
            r is Some <==> records_wf(recs_view(records@)),
            r matches Some(d) ==> d@.nodes == recs_view(records@) && d@.root == (
                if records@.len() == 0 { 0int } else { 1int }
            ),
    {
        let n = records.len();
        let mut i: usize = 0;
        while i < n
            invariant
                n == records@.len(),
                i <= n,
                forall|j: int|
                    0 <= j < i ==> node_children_in_range(
                        #[trigger] recs_view(records@)[j],
                        n as int,
                    ),
            decreases n - i,
        {
            let ok = record_children_in_range(&records[i], n);
            proof {
                assert(recs_view(records@)[i as int] == records@[i as int]@);
            }
            if !ok {
                proof {
                    assert(!records_wf(recs_view(records@)));
                }
                return None;
            }
            i += 1;
        }
        let root_id: usize = if n == 0 { 0 } else { 1 };
        let d = Document { nodes: records, root_id };
        Some(d)
    }

    /// Every document the library hands out satisfies the arena invariant:
    /// containers reference only valid ids, and the root id is either 0 (for
    /// an empty arena) or a valid id.
    /// This does no work at run time; it only makes the invariant available
    /// to the caller's proof.
    #[inline(always)]
    pub fn arena_wf(&self)
        ensures
            records_wf(self@.nodes),
            0 <= self@.root <= self@.nodes.len(),
            self@.nodes.len() == 0 ==> self@.root == 0,
    {
        proof {
            use_type_invariant(self);
        }
    }

    /// The number of nodes in the arena (valid ids are 1 up to this).
    pub fn len(&self) -> (r: usize)
        ensures
            r == self@.nodes.len(),
    {
        self.nodes.len()
    }

    /// Resolves an id to a node handle. Id 0 and any id beyond the arena
    /// yield `None` — never a phantom node.
    pub fn get_node<'a>(&'a self, id: usize) -> (r: Option<Node<'a>>)
        ensures
            r is Some <==> 1 <= id <= self@.nodes.len(),
            r matches Some(n) ==> n.doc_view() == self@ && n.spec_id() == id,
    {
        if id >= 1 && id <= self.nodes.len() {
            Some(Node { doc: self, id })
        } else {
            None
        }
    }

    /// The root node, or `NoRoot` when the document is empty.
    pub fn get_root_node<'a>(&'a self) -> (r: Result<Node<'a>, RootError>)
        ensures
            self@.root >= 1 ==> (r matches Ok(n) && n.doc_view() == self@ && n.spec_id()
                == self@.root),
            self@.root == 0 ==> r == Err::<Node<'a>, RootError>(RootError::NoRoot),
    {
        proof {
            use_type_invariant(self);
        }
        if self.root_id >= 1 {
            Ok(Node { doc: self, id: self.root_id })
        } else {
            Err(RootError::NoRoot)
        }
    }
}

/// Checks that every id of a list lies inside an arena of length `n`.
fn ids_in_range(items: &Vec<usize>, n: usize) -> (r: bool)
    ensures
        r == ids_ok(items@, n as int),
{
    let m = items.len();
    let mut k: usize = 0;
    while k < m
        invariant
            m == items@.len(),
            k <= m,
            forall|j: int| 0 <= j < k ==> 1 <= #[trigger] items@[j] <= n,
        decreases m - k,
    {
        let it = items[k];
        if it < 1 || it > n {
            return false;
        }
        k += 1;
    }
    true
}

/// Checks that every key and value id of a pair list lies inside an arena of
/// length `n`.
fn pair_ids_in_range(pairs: &Vec<Pair>, n: usize) -> (r: bool)
    ensures
        r == pair_ids_ok(pairs@, n as int),
{
    let m = pairs.len();
    let mut k: usize = 0;
    while k < m
        invariant
            m == pairs@.len(),
            k <= m,
            forall|j: int|
                0 <= j < k ==> 1 <= (#[trigger] pairs@[j]).key <= n && 1 <= pairs@[j].value <= n,
        decreases m - k,
    {
        let p = pairs[k];
        if p.key < 1 || p.key > n || p.value < 1 || p.value > n {
            return false;
        }
        k += 1;
    }
    true
}

/// Checks one record's child ids against an arena length.
fn record_children_in_range(rec: &NodeData, n: usize) -> (r: bool)
    ensures
        r == node_children_in_range(rec@, n as int),
{
    match rec {
        NodeData::Absent => true,
        NodeData::Scalar { .. } => true,
        NodeData::Sequence { items } => {
            proof {
                assert(rec@ == (NodeV::Sequence { items: items@ }));
            }
            ids_in_range(items, n)
        },
        NodeData::Mapping { pairs } => {
            proof {
                assert(rec@ == (NodeV::Mapping { pairs: pairs@ }));
            }
            pair_ids_in_range(pairs, n)
        },
    }
}

/// A lightweight node handle: the owning document plus a node id.
///
/// Handles are only handed out for valid ids, and borrow the document, so a
/// handle can never outlive the arena it points into.
#[derive(Clone, Copy, Debug)]
pub struct Node<'a> {
    doc: &'a Document,
    id: usize,
}

impl<'a> Node<'a> {
    #[verifier::type_invariant]
    spec fn nwf(self) -> bool {
        1 <= self.id <= self.doc@.nodes.len()
    }

    /// The value of the owning document.
    pub closed spec fn doc_view(self) -> DocV {
        self.doc@
    }

    /// The id of this node inside its document.
    pub closed spec fn spec_id(self) -> int {
        self.id as int
    }

    /// The record this handle resolves to.
    pub open spec fn node_view(self) -> NodeV {
        node_at(self.doc_view(), self.spec_id())
    }

    /// The id of this node, as a value.
    pub fn id(&self) -> (r: usize)
        ensures
            r == self.spec_id(),
    {
        self.id
    }

    /// The owning document.
    pub fn document(&self) -> (r: &'a Document)
        ensures
            r@ == self.doc_view(),
    {
        self.doc
    }

    /// The pure data projection of this node: a side-effect-free view of the
    /// underlying variant record.
    pub fn data(&self) -> (r: &'a NodeData)
        ensures
            r@ == self.node_view(),
    {
        proof {
            use_type_invariant(*self);
            assert(recs_view(self.doc.nodes@)[self.id - 1] == self.doc.nodes@[self.id - 1]@);
        }
        &self.doc.nodes[self.id - 1]
    }
}

} // verus!
