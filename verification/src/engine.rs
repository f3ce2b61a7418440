//! The trusted boundary to the external grammar engine (the `libyaml-safer`
//! crate), which owns scanning, parsing, quoting and indentation.
//!
//! Everything in this module either declares an engine type, names what an
//! engine call returns, or wraps one engine call behind a contract that
//! Verus believes without proof; the rest of the crate is proved against
//! these contracts.
use vstd::prelude::*;

use libyaml_safer::Document as EngineDoc;
use vstd::utf8::valid_utf8;

use crate::errors::EmitError;
use crate::errors::LoadError;
use crate::model::records_wf;
use crate::model::tree_shaped;
use crate::model::NodeData;
use crate::model::NodeV;
use crate::model::Pair;
use crate::model::Style;

verus! {

/// The engine's document type: an opaque carrier of one parsed or
/// assembled node table.
#[verifier::external_type_specification]
#[verifier::external_body]
pub struct ExDocument(EngineDoc);

/// The engine's scalar style type, declared transparently so that verified
/// code can translate it to the library's [`Style`].
#[verifier::external_type_specification]
pub struct ExScalarStyle(libyaml_safer::ScalarStyle);

/// The node records an engine document holds, in id order, as records of
/// this library's model: ids as the engine wrote them, scalar text as the
/// bytes of the engine's string value.
pub uninterp spec fn eng_contents(d: EngineDoc) -> Seq<NodeV>;

/// Whether an engine document carries implicit document start and end
/// markers, no directives, and the default tag on every node — the shape
/// this library's builders produce, under which the emitted bytes are a
/// function of the node records alone.
pub uninterp spec fn eng_plain(d: EngineDoc) -> bool;

/// What the engine's parser produces from the given input bytes: the node
/// records of the single loaded document (empty for an empty stream), or
/// the load error it reports.
pub uninterp spec fn yaml_parse(input: Seq<u8>) -> Result<Seq<NodeV>, LoadError>;

/// What the engine's emitter produces from a plain document holding the
/// given node records: the emitted byte stream, or the emit error it
/// reports.
pub uninterp spec fn yaml_emit_of(nodes: Seq<NodeV>) -> Result<Seq<u8>, EmitError>;

/// The items of a sequence record (empty for every other kind).
pub open spec fn seq_items(n: NodeV) -> Seq<usize> {
    match n {
        NodeV::Sequence { items } => items,
        _ => Seq::empty(),
    }
}

/// The pairs of a mapping record (empty for every other kind).
pub open spec fn map_pairs(n: NodeV) -> Seq<Pair> {
    match n {
        NodeV::Mapping { pairs } => pairs,
        _ => Seq::empty(),
    }
}

/// Translates the engine's scalar style to the library's.
fn style_of_engine(s: &libyaml_safer::ScalarStyle) -> Style {
    match s {
        libyaml_safer::ScalarStyle::Plain => Style::Plain,
        libyaml_safer::ScalarStyle::SingleQuoted => Style::SingleQuoted,
        libyaml_safer::ScalarStyle::DoubleQuoted => Style::DoubleQuoted,
        libyaml_safer::ScalarStyle::Literal => Style::Literal,
        libyaml_safer::ScalarStyle::Folded => Style::Folded,
        _ => Style::Any,
    }
}

/// Translates the library's scalar style to the engine's.
fn style_to_engine(s: &Style) -> libyaml_safer::ScalarStyle {
    match s {
        Style::Any => libyaml_safer::ScalarStyle::Any,
        Style::Plain => libyaml_safer::ScalarStyle::Plain,
        Style::SingleQuoted => libyaml_safer::ScalarStyle::SingleQuoted,
        Style::DoubleQuoted => libyaml_safer::ScalarStyle::DoubleQuoted,
        Style::Literal => libyaml_safer::ScalarStyle::Literal,
        Style::Folded => libyaml_safer::ScalarStyle::Folded,
    }
}

/// Relies on `Parser::set_input_string` and `Document::load` of the
/// engine: one document is parsed from the given bytes, deterministically.
/// Failures of kind `Io` map to `LoadError::Io`, every other failure to
/// `LoadError::Syntax`.
#[verifier::external_body]
pub(crate) fn eng_load(input: &[u8]) -> (r: Result<EngineDoc, LoadError>)
    ensures
        match r {
            Ok(d) => yaml_parse(input@) == Ok::<Seq<NodeV>, LoadError>(eng_contents(d)),
            Err(e) => yaml_parse(input@) == Err::<Seq<NodeV>, LoadError>(e),
        },
{
    let mut rest: &[u8] = input;
    let mut parser = libyaml_safer::Parser::new();
    parser.set_input_string(&mut rest);
    match libyaml_safer::Document::load(&mut parser) {
        Ok(d) => Ok(d),
        Err(e) => Err(
            if e.kind() == libyaml_safer::ErrorKind::Io {
                LoadError::Io
            } else {
                LoadError::Syntax
            },
        ),
    }
}

/// Relies on the engine document's public `nodes` vector: its length is the
/// number of records.
#[verifier::external_body]
pub(crate) fn eng_len(d: &EngineDoc) -> (r: usize)
    ensures
        r == eng_contents(*d).len(),
{
    d.nodes.len()
}

/// Relies on the engine document's public `nodes` vector: the record at
/// position `i`, converted one-for-one to this library's record type.
#[verifier::external_body]
pub(crate) fn eng_node_at(d: &EngineDoc, i: usize) -> (r: NodeData)
    requires
        i < eng_contents(*d).len(),
    ensures
        r@ == eng_contents(*d)[i as int],
{
    match &d.nodes[i].data {
        libyaml_safer::NodeData::NoNode => NodeData::Absent,
        libyaml_safer::NodeData::Scalar { value, style } => NodeData::Scalar {
            text: value.clone().into_bytes(),
            style: style_of_engine(style),
        },
        libyaml_safer::NodeData::Sequence { items, .. } => NodeData::Sequence {
            items: items.iter().map(|x| *x as usize).collect(),
        },
        libyaml_safer::NodeData::Mapping { pairs, .. } => NodeData::Mapping {
            pairs: pairs.iter().map(|p| Pair { key: p.key as usize, value: p.value as usize }).collect(),
        },
    }
}

/// Relies on `Document::new` of the engine: a fresh document holding no
/// nodes, with implicit start and end markers and no directives.
#[verifier::external_body]
pub(crate) fn eng_new_doc() -> (r: EngineDoc)
    ensures
        eng_contents(r) == Seq::<NodeV>::empty(),
        eng_plain(r),
{
    libyaml_safer::Document::new(None, &[], true, true)
}

/// Relies on `Document::add_scalar` of the engine: it appends a scalar node
/// with the default tag and assigns it the next id. The engine stores
/// scalar text as a string, so the call is made exactly when the bytes are
/// valid UTF-8.
#[verifier::external_body]
pub(crate) fn eng_add_scalar(d: &mut EngineDoc, text: &Vec<u8>, style: &Style) -> (r:
    bool)
    ensures
        r <==> valid_utf8(text@),
        r ==> eng_contents(*final(d)) == eng_contents(*old(d)).push(
            NodeV::Scalar { text: text@, style: *style },
        ),
        !r ==> eng_contents(*final(d)) == eng_contents(*old(d)),
        eng_plain(*final(d)) == eng_plain(*old(d)),
{
    match core::str::from_utf8(text) {
        Ok(s) => {
            let _ = d.add_scalar(None, s, style_to_engine(style));
            true
        },
        Err(_) => false,
    }
}

/// Relies on `Document::add_sequence` of the engine: it appends a sequence
/// node with no items yet, the default tag, and the style choice left to
/// the emitter, and assigns it the next id.
#[verifier::external_body]
pub(crate) fn eng_add_sequence(d: &mut EngineDoc)
    ensures
        eng_contents(*final(d)) == eng_contents(*old(d)).push(
            NodeV::Sequence { items: Seq::empty() },
        ),
        eng_plain(*final(d)) == eng_plain(*old(d)),
{
    let _ = d.add_sequence(None, libyaml_safer::SequenceStyle::Any);
}

/// Relies on `Document::add_mapping` of the engine: it appends a mapping
/// node with no pairs yet, the default tag, and the style choice left to
/// the emitter, and assigns it the next id.
#[verifier::external_body]
pub(crate) fn eng_add_mapping(d: &mut EngineDoc)
    ensures
        eng_contents(*final(d)) == eng_contents(*old(d)).push(
            NodeV::Mapping { pairs: Seq::empty() },
        ),
        eng_plain(*final(d)) == eng_plain(*old(d)),
{
    let _ = d.add_mapping(None, libyaml_safer::MappingStyle::Any);
}

/// Relies on `Document::append_sequence_item` of the engine: it pushes
/// `item` onto the item list of the sequence node of id `sid`. The engine
/// asserts that both ids are in range, that they fit its id type, and that
/// `sid` names a sequence, so the contract requires exactly that.
#[verifier::external_body]
pub(crate) fn eng_append_item(d: &mut EngineDoc, sid: usize, item: usize)
    requires
        1 <= sid <= eng_contents(*old(d)).len(),
        eng_contents(*old(d)).len() <= 0x7fff_ffff,
        eng_contents(*old(d))[sid - 1] matches NodeV::Sequence { .. },
        1 <= item <= eng_contents(*old(d)).len(),
    ensures
        eng_contents(*final(d)) == eng_contents(*old(d)).update(
            sid - 1,
            (NodeV::Sequence { items: seq_items(eng_contents(*old(d))[sid - 1]).push(item) }),
        ),
        eng_plain(*final(d)) == eng_plain(*old(d)),
{
    d.append_sequence_item(sid as i32, item as i32);
}

/// Relies on `Document::yaml_document_append_mapping_pair` of the engine:
/// it pushes the key/value pair onto the pair list of the mapping node of
/// id `mid`. The engine asserts that all three ids are in range, that they
/// fit its id type, and that `mid` names a mapping, so the contract
/// requires exactly that.
#[verifier::external_body]
pub(crate) fn eng_append_pair(d: &mut EngineDoc, mid: usize, p: Pair)
    requires
        1 <= mid <= eng_contents(*old(d)).len(),
        eng_contents(*old(d)).len() <= 0x7fff_ffff,
        eng_contents(*old(d))[mid - 1] matches NodeV::Mapping { .. },
        1 <= p.key <= eng_contents(*old(d)).len(),
        1 <= p.value <= eng_contents(*old(d)).len(),
    ensures
        eng_contents(*final(d)) == eng_contents(*old(d)).update(
            mid - 1,
            (NodeV::Mapping { pairs: map_pairs(eng_contents(*old(d))[mid - 1]).push(p) }),
        ),
        eng_plain(*final(d)) == eng_plain(*old(d)),
{
    d.yaml_document_append_mapping_pair(mid as i32, p.key as i32, p.value as i32);
}

/// Relies on `Document::dump`, `Emitter::new`, `Emitter::set_output_string`
/// and `Emitter::flush` of the engine: the document is emitted into a fresh
/// in-memory buffer and the buffer is flushed before it is returned. For a
/// plain document the bytes are a function of the node records alone; any
/// engine failure maps to `EmitError::Engine`. The engine indexes child ids
/// unchecked while walking the tree, panics on an empty (absent) record,
/// and panics on a node reached twice that its one-level anchor pass did
/// not see — so the contract requires a well-formed, strictly tree-shaped
/// arena with no absent record.
#[verifier::external_body]
pub(crate) fn eng_dump(d: EngineDoc) -> (r: Result<Vec<u8>, EmitError>)
    requires
        eng_plain(d),
        records_wf(eng_contents(d)),
        tree_shaped(eng_contents(d)),
        forall|i: int|
            0 <= i < eng_contents(d).len() ==> !((#[trigger] eng_contents(d)[i])
                matches NodeV::Absent),
    ensures
        match r {
            Ok(v) => yaml_emit_of(eng_contents(d)) == Ok::<Seq<u8>, EmitError>(v@),
            Err(e) => yaml_emit_of(eng_contents(d)) == Err::<Seq<u8>, EmitError>(e),
        },
{
    let mut out: Vec<u8> = Vec::new();
    let ok = {
        let mut emitter = libyaml_safer::Emitter::new();
        emitter.set_output_string(&mut out);
        d.dump(&mut emitter).is_ok() && emitter.flush().is_ok()
    };
    if ok {
        Ok(out)
    } else {
        Err(EmitError::Engine)
    }
}

} // verus!
