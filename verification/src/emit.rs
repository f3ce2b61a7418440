//! Emission: walking a document back into the external encoder, and
//! capturing the emitted bytes in a sink.
//!
//! The encoder writes all output through one [`EmissionSink`] installed by
//! the caller: a growable in-memory buffer here, or a file-backed sink
//! outside the verified core. Switching sinks never requires re-deriving
//! the document.
use vstd::prelude::*;

use libyaml_safer::Document as EngineDoc;
use vstd::string::StringExecFns;
use vstd::utf8::decode_utf8;
use vstd::utf8::encode_utf8_decode_utf8;
use vstd::utf8::valid_utf8;

use crate::engine::eng_add_mapping;
use crate::engine::eng_add_scalar;
use crate::engine::eng_add_sequence;
use crate::engine::eng_append_item;
use crate::engine::eng_append_pair;
use crate::engine::eng_contents;
use crate::engine::eng_dump;
use crate::engine::eng_new_doc;
use crate::engine::eng_plain;
use crate::engine::yaml_emit_of;
use crate::errors::EmitError;
use crate::errors::SinkError;
use crate::model::all_child_refs;
use crate::model::node_child_refs;
use crate::model::node_children_in_range;
use crate::model::pair_refs;
use crate::model::records_wf;
use crate::model::tree_shaped;
use crate::model::Document;
use crate::model::NodeData;
use crate::model::NodeV;
use crate::model::Pair;
use crate::text::bytes_to_str;

verus! {

/// The largest arena the engine's node id type can address.
pub const ENGINE_MAX_NODES: usize = 0x7fff_ffff;

/// Whether one record can be handed to the engine: a scalar must hold
/// valid UTF-8 (the engine stores scalar text as a string), and the absent
/// sentinel has no engine form.
pub open spec fn record_encodable(n: NodeV) -> bool {
    match n {
        NodeV::Absent => false,
        NodeV::Scalar { text, .. } => valid_utf8(text),
        _ => true,
    }
}

/// Whether a document's records can be handed to the engine for emission:
/// every record must have an engine form, the arena must fit the engine's
/// id type, and — since the model is alias-free — the arena must be
/// strictly tree-shaped.
pub open spec fn emittable(nodes: Seq<NodeV>) -> bool {
    &&& nodes.len() <= ENGINE_MAX_NODES
    &&& (forall|i: int| 0 <= i < nodes.len() ==> record_encodable(#[trigger] nodes[i]))
    &&& tree_shaped(nodes)
}

/// A container record with its children not yet attached.
pub open spec fn emptied(n: NodeV) -> NodeV {
    match n {
        NodeV::Sequence { .. } => NodeV::Sequence { items: Seq::empty() },
        NodeV::Mapping { .. } => NodeV::Mapping { pairs: Seq::empty() },
        other => other,
    }
}

/// The node table mid-build: the first `upto` records carry their
/// children, the rest still stand empty.
pub open spec fn hybrid(nodes: Seq<NodeV>, upto: int) -> Seq<NodeV> {
    Seq::new(nodes.len(), |j: int| if j < upto { nodes[j] } else { emptied(nodes[j]) })
}

/// Appends the child references of one record.
fn push_child_refs(refs: &mut Vec<usize>, rec: &NodeData)
    ensures
        final(refs)@ == old(refs)@ + node_child_refs(rec@),
{
    match rec {
        NodeData::Absent => {
            proof {
                assert(refs@ =~= old(refs)@ + node_child_refs(rec@));
            }
        },
        NodeData::Scalar { .. } => {
            proof {
                assert(refs@ =~= old(refs)@ + node_child_refs(rec@));
            }
        },
        NodeData::Sequence { items } => {
            let m = items.len();
            let mut k: usize = 0;
            while k < m
                invariant
                    m == items@.len(),
                    k <= m,
                    refs@ == old(refs)@ + items@.take(k as int),
                decreases m - k,
            {
                let it = items[k];
                refs.push(it);
                proof {
                    assert(old(refs)@ + items@.take(k as int + 1) =~= (old(refs)@ + items@.take(
                        k as int,
                    )).push(items@[k as int]));
                }
                k += 1;
            }
            proof {
                assert(items@.take(m as int) =~= items@);
            }
        },
        NodeData::Mapping { pairs } => {
            let m = pairs.len();
            proof {
                assert(pair_refs(pairs@.take(0)) =~= Seq::<usize>::empty());
                assert(refs@ =~= old(refs)@ + pair_refs(pairs@.take(0)));
            }
            let mut k: usize = 0;
            while k < m
                invariant
                    m == pairs@.len(),
                    k <= m,
                    refs@ == old(refs)@ + pair_refs(pairs@.take(k as int)),
                decreases m - k,
            {
                let p = pairs[k];
                refs.push(p.key);
                refs.push(p.value);
                proof {
                    assert(pairs@.take(k as int + 1).drop_last() =~= pairs@.take(k as int));
                    assert(pairs@.take(k as int + 1).last() == pairs@[k as int]);
                    assert((old(refs)@ + pair_refs(pairs@.take(k as int))).push(p.key).push(
                        p.value,
                    ) =~= old(refs)@ + pair_refs(pairs@.take(k as int + 1)));
                }
                k += 1;
            }
            proof {
                assert(pairs@.take(m as int) =~= pairs@);
            }
        },
    }
}

/// Collects every child reference of the arena, in order.
fn collect_child_refs(doc: &Document) -> (r: Vec<usize>)
    ensures
        r@ == all_child_refs(doc@.nodes),
{
    let n = doc.len();
    let mut refs: Vec<usize> = Vec::new();
    let mut i: usize = 0;
    while i < n
        invariant
            n == doc@.nodes.len(),
            i <= n,
            refs@ == all_child_refs(doc@.nodes.take(i as int)),
        decreases n - i,
    {
        let node = match doc.get_node(i + 1) {
            Some(x) => x,
            None => {
                proof {
                    assert(false);
                }
                return refs;
            },
        };
        proof {
            assert(node.node_view() == doc@.nodes[i as int]);
        }
        push_child_refs(&mut refs, node.data());
        proof {
            assert(doc@.nodes.take(i as int + 1).drop_last() =~= doc@.nodes.take(i as int));
            assert(doc@.nodes.take(i as int + 1).last() == doc@.nodes[i as int]);
        }
        i += 1;
    }
    proof {
        assert(doc@.nodes.take(n as int) =~= doc@.nodes);
    }
    refs
}

/// Checks that no id repeats among the child references and that the root
/// is never referenced.
fn refs_ok(refs: &Vec<usize>) -> (r: bool)
    ensures
        r == (refs@.no_duplicates() && !refs@.contains(1)),
{
    let n = refs.len();
    let mut i: usize = 0;
    while i < n
        invariant
            n == refs@.len(),
            i <= n,
            forall|a: int| 0 <= a < i ==> refs@[a] != 1,
            forall|a: int, b: int| 0 <= a < b < i ==> refs@[a] != refs@[b],
        decreases n - i,
    {
        let x = refs[i];
        if x == 1 {
            proof {
                assert(refs@.contains(1)) by {
                    assert(refs@[i as int] == 1);
                }
            }
            return false;
        }
        let mut j: usize = 0;
        while j < i
            invariant
                n == refs@.len(),
                i < n,
                j <= i,
                x == refs@[i as int],
                forall|a: int| 0 <= a < j ==> refs@[a] != x,
            decreases i - j,
        {
            if refs[j] == x {
                proof {
                    assert(!refs@.no_duplicates()) by {
                        assert(refs@[j as int] == refs@[i as int] && j as int != i as int);
                    }
                }
                return false;
            }
            j += 1;
        }
        i += 1;
    }
    true
}

/// Rebuilds a document inside the engine, node for node and id for id:
/// first every record (containers empty), then every container's children.
fn build_engine_doc(doc: &Document) -> (r: Option<EngineDoc>)
    ensures
        match r {
            Some(ed) => emittable(doc@.nodes) && eng_plain(ed) && eng_contents(ed) == doc@.nodes
                && records_wf(eng_contents(ed)),
            None => !emittable(doc@.nodes),
        },
{
    let ghost target = doc@.nodes;
    doc.arena_wf();
    let n = doc.len();
    if n > ENGINE_MAX_NODES {
        return None;
    }
    let refs = collect_child_refs(doc);
    if !refs_ok(&refs) {
        return None;
    }
    let mut ed = eng_new_doc();
    let mut i: usize = 0;
    while i < n
        invariant
            target == doc@.nodes,
            n == target.len(),
            n <= ENGINE_MAX_NODES,
            i <= n,
            records_wf(target),
            eng_plain(ed),
            eng_contents(ed) == target.take(i as int).map_values(|v: NodeV| emptied(v)),
            forall|j: int| 0 <= j < i ==> record_encodable(#[trigger] target[j]),
        decreases n - i,
    {
        let node = match doc.get_node(i + 1) {
            Some(x) => x,
            None => {
                proof {
                    assert(false);
                }
                return None;
            },
        };
        proof {
            assert(node.node_view() == target[i as int]);
        }
        match node.data() {
            NodeData::Absent => {
                proof {
                    assert(!record_encodable(target[i as int]));
                }
                return None;
            },
            NodeData::Scalar { text, style } => {
                if !eng_add_scalar(&mut ed, text, style) {
                    proof {
                        assert(!record_encodable(target[i as int]));
                    }
                    return None;
                }
            },
            NodeData::Sequence { .. } => eng_add_sequence(&mut ed),
            NodeData::Mapping { .. } => eng_add_mapping(&mut ed),
        }
        proof {
            assert(eng_contents(ed) =~= target.take(i as int + 1).map_values(
                |v: NodeV| emptied(v),
            ));
        }
        i += 1;
    }
    proof {
        assert(eng_contents(ed) =~= hybrid(target, 0));
    }
    let mut i: usize = 0;
    while i < n
        invariant
            target == doc@.nodes,
            n == target.len(),
            n <= ENGINE_MAX_NODES,
            i <= n,
            records_wf(target),
            eng_plain(ed),
            eng_contents(ed) == hybrid(target, i as int),
        decreases n - i,
    {
        let node = match doc.get_node(i + 1) {
            Some(x) => x,
            None => {
                proof {
                    assert(false);
                }
                return None;
            },
        };
        proof {
            assert(node.node_view() == target[i as int]);
            assert(node_children_in_range(target[i as int], n as int));
        }
        match node.data() {
            NodeData::Sequence { items } => {
                let m = items.len();
                proof {
                    assert(target[i as int] == (NodeV::Sequence { items: items@ }));
                    assert(items@.take(0) =~= Seq::<usize>::empty());
                    assert(hybrid(target, i as int).update(
                        i as int,
                        (NodeV::Sequence { items: items@.take(0) }),
                    ) =~= hybrid(target, i as int));
                }
                let mut k: usize = 0;
                while k < m
                    invariant
                        target == doc@.nodes,
                        n == target.len(),
                        n <= ENGINE_MAX_NODES,
                        i < n,
                        m == items@.len(),
                        k <= m,
                        records_wf(target),
                        target[i as int] == (NodeV::Sequence { items: items@ }),
                        node_children_in_range(target[i as int], n as int),
                        eng_plain(ed),
                        eng_contents(ed) == hybrid(target, i as int).update(
                            i as int,
                            (NodeV::Sequence { items: items@.take(k as int) }),
                        ),
                    decreases m - k,
                {
                    proof {
                        assert(1 <= items@[k as int] <= n);
                        assert(eng_contents(ed).len() == n);
                        assert(eng_contents(ed)[i as int] == (NodeV::Sequence {
                            items: items@.take(k as int),
                        }));
                    }
                    let it = items[k];
                    eng_append_item(&mut ed, i + 1, it);
                    proof {
                        assert(items@.take(k as int).push(items@[k as int]) =~= items@.take(
                            k as int + 1,
                        ));
                        assert(eng_contents(ed) =~= hybrid(target, i as int).update(
                            i as int,
                            (NodeV::Sequence { items: items@.take(k as int + 1) }),
                        ));
                    }
                    k += 1;
                }
                proof {
                    assert(items@.take(m as int) =~= items@);
                    assert(hybrid(target, i as int).update(i as int, target[i as int]) =~= hybrid(
                        target,
                        i as int + 1,
                    ));
                }
            },
            NodeData::Mapping { pairs } => {
                let m = pairs.len();
                proof {
                    assert(target[i as int] == (NodeV::Mapping { pairs: pairs@ }));
                    assert(pairs@.take(0) =~= Seq::<Pair>::empty());
                    assert(hybrid(target, i as int).update(
                        i as int,
                        (NodeV::Mapping { pairs: pairs@.take(0) }),
                    ) =~= hybrid(target, i as int));
                }
                let mut k: usize = 0;
                while k < m
                    invariant
                        target == doc@.nodes,
                        n == target.len(),
                        n <= ENGINE_MAX_NODES,
                        i < n,
                        m == pairs@.len(),
                        k <= m,
                        records_wf(target),
                        target[i as int] == (NodeV::Mapping { pairs: pairs@ }),
                        node_children_in_range(target[i as int], n as int),
                        eng_plain(ed),
                        eng_contents(ed) == hybrid(target, i as int).update(
                            i as int,
                            (NodeV::Mapping { pairs: pairs@.take(k as int) }),
                        ),
                    decreases m - k,
                {
                    proof {
                        assert(1 <= pairs@[k as int].key <= n && 1 <= pairs@[k as int].value <= n);
                        assert(eng_contents(ed).len() == n);
                        assert(eng_contents(ed)[i as int] == (NodeV::Mapping {
                            pairs: pairs@.take(k as int),
                        }));
                    }
                    let p = pairs[k];
                    eng_append_pair(&mut ed, i + 1, p);
                    proof {
                        assert(pairs@.take(k as int).push(pairs@[k as int]) =~= pairs@.take(
                            k as int + 1,
                        ));
                        assert(eng_contents(ed) =~= hybrid(target, i as int).update(
                            i as int,
                            (NodeV::Mapping { pairs: pairs@.take(k as int + 1) }),
                        ));
                    }
                    k += 1;
                }
                proof {
                    assert(pairs@.take(m as int) =~= pairs@);
                    assert(hybrid(target, i as int).update(i as int, target[i as int]) =~= hybrid(
                        target,
                        i as int + 1,
                    ));
                }
            },
            _ => {
                proof {
                    assert(emptied(target[i as int]) == target[i as int]);
                    assert(hybrid(target, i as int) =~= hybrid(target, i as int + 1));
                }
            },
        }
        i += 1;
    }
    proof {
        assert(hybrid(target, n as int) =~= target);
    }
    Some(ed)
}

/// The abstraction the encoder writes bytes into; the caller installs one
/// sink per emission and the encoder writes all output through it, in
/// emission order.
pub trait EmissionSink {
    /// Accepts the next chunk of emitted bytes.
    fn write_bytes(&mut self, buf: &[u8]) -> Result<(), SinkError>;
}

/// A sink that captures emitted bytes in a growable in-memory buffer.
pub struct MemorySink {
    buf: Vec<u8>,
}

impl View for MemorySink {
    type V = Seq<u8>;

    closed spec fn view(&self) -> Seq<u8> {
        self.buf@
    }
}

impl MemorySink {
    /// An empty capture buffer.
    pub fn new() -> (s: MemorySink)
        ensures
            s@ == Seq::<u8>::empty(),
    {
        MemorySink { buf: Vec::new() }
    }

    /// Appends a chunk of bytes to the capture buffer; this never fails.
    pub fn write(&mut self, buf: &[u8]) -> (r: Result<(), SinkError>)
        ensures
            r == Ok::<(), SinkError>(()),
            final(self)@ == old(self)@ + buf@,
    {
        let n = buf.len();
        let mut i: usize = 0;
        while i < n
            invariant
                n == buf@.len(),
                i <= n,
                self@ == old(self)@ + buf@.take(i as int),
            decreases n - i,
        {
            let b = buf[i];
            self.buf.push(b);
            proof {
                assert(old(self)@ + buf@.take(i as int + 1) =~= (old(self)@ + buf@.take(
                    i as int,
                )).push(buf@[i as int]));
            }
            i += 1;
        }
        proof {
            assert(buf@.take(n as int) =~= buf@);
        }
        Ok(())
    }

    /// The bytes captured so far.
    pub fn bytes(&self) -> (r: &Vec<u8>)
        ensures
            r@ == self@,
    {
        &self.buf
    }

    /// Exposes the captured bytes as decoded text, failing exactly when
    /// they are not valid UTF-8.
    pub fn into_text(self) -> (r: Result<String, SinkError>)
        ensures
            valid_utf8(self@) ==> (r matches Ok(s) && s@ == decode_utf8(self@)),
            !valid_utf8(self@) ==> r == Err::<String, SinkError>(SinkError::InvalidUtf8),
    {
        match bytes_to_str(self.buf.as_slice()) {
            Some(s) => {
                proof {
                    encode_utf8_decode_utf8(s@);
                }
                Ok(String::from_str(s))
            },
            None => Err(SinkError::InvalidUtf8),
        }
    }
}

impl EmissionSink for MemorySink {
    fn write_bytes(&mut self, buf: &[u8]) -> Result<(), SinkError> {
        self.write(buf)
    }
}

/// Walks a document through the external encoder, into a chosen sink or
/// captured in memory.
pub struct Emitter {}

impl Emitter {
    /// A fresh emitter.
    pub fn new() -> Emitter {
        Emitter {}
    }

    /// The emitted bytes of a document.
    fn emit_doc_bytes(doc: &Document) -> (r: Result<Vec<u8>, EmitError>)
        ensures
            !emittable(doc@.nodes) ==> r == Err::<Vec<u8>, EmitError>(EmitError::Unencodable),
            emittable(doc@.nodes) ==> match yaml_emit_of(doc@.nodes) {
                Ok(b) => r matches Ok(v) && v@ == b,
                Err(e) => r == Err::<Vec<u8>, EmitError>(e),
            },
    {
        match build_engine_doc(doc) {
            None => Err(EmitError::Unencodable),
            Some(ed) => {
                proof {
                    assert forall|i: int|
                        0 <= i < eng_contents(ed).len() implies !((#[trigger] eng_contents(
                        ed,
                    )[i]) matches NodeV::Absent) by {
                        assert(record_encodable(doc@.nodes[i]));
                    };
                }
                eng_dump(ed)
            },
        }
    }

    /// Emits a document and captures the bytes in memory, exposed as
    /// decoded text — the same document may be emitted through any sink
    /// without being re-derived.
    pub fn dumps(&self, doc: &Document) -> (r: Result<String, EmitError>)
        ensures
            !emittable(doc@.nodes) ==> r == Err::<String, EmitError>(EmitError::Unencodable),
            emittable(doc@.nodes) ==> match yaml_emit_of(doc@.nodes) {
                Err(e) => r == Err::<String, EmitError>(e),
                Ok(b) => if valid_utf8(b) {
                    r matches Ok(s) && s@ == decode_utf8(b)
                } else {
                    r == Err::<String, EmitError>(EmitError::OutputNotUtf8)
                },
            },
    {
        match Self::emit_doc_bytes(doc) {
            Err(e) => Err(e),
            Ok(v) => match bytes_to_str(v.as_slice()) {
                Some(s) => {
                    proof {
                        encode_utf8_decode_utf8(s@);
                    }
                    Ok(String::from_str(s))
                },
                None => Err(EmitError::OutputNotUtf8),
            },
        }
    }

    /// Emits a document through the installed sink: all bytes are handed
    /// to the sink in one ordered stream; a sink failure is reported as
    /// `Sink`, never silently dropped.
    pub fn dump_into<S: EmissionSink>(&self, doc: &Document, sink: &mut S) -> (r: Result<
        (),
        EmitError,
    >)
        ensures
            !emittable(doc@.nodes) ==> r == Err::<(), EmitError>(EmitError::Unencodable),
            emittable(doc@.nodes) ==> match yaml_emit_of(doc@.nodes) {
                Err(e) => r == Err::<(), EmitError>(e),
                Ok(_) => r == Ok::<(), EmitError>(()) || r == Err::<(), EmitError>(
                    EmitError::Sink,
                ),
            },
    {
        match Self::emit_doc_bytes(doc) {
            Err(e) => Err(e),
            Ok(v) => match sink.write_bytes(v.as_slice()) {
                Ok(()) => Ok(()),
                Err(_) => Err(EmitError::Sink),
            },
        }
    }
}

} // verus!
