//! The recursive renderer: formats a node and its reachable subtree into a
//! human-readable line, one formatting rule per variant.
//!
//! Scalars that fail UTF-8 decoding render a fallback marker instead of
//! failing the whole render; empty containers render as an empty bracket
//! pair; and recursion depth is capped defensively, failing with `TooDeep`
//! rather than overflowing on malformed input.
use vstd::prelude::*;

use vstd::string::StringExecFns;
use vstd::string::StringSliceAdditionalSpecFns;
use vstd::utf8::decode_utf8;
use vstd::utf8::encode_utf8_decode_utf8;
use vstd::utf8::valid_utf8;

use crate::errors::RenderError;
use crate::model::node_at;
use crate::model::DocV;
use crate::model::Document;
use crate::model::Node;
use crate::model::NodeData;
use crate::model::NodeV;
use crate::model::Pair;
use crate::text::bytes_to_str;
use crate::text::dec_str;
use crate::text::usize_to_string;

verus! {

/// How deep the renderer is willing to recurse before giving up.
pub const RENDER_DEPTH_LIMIT: usize = 64;

/// The display name of a scalar style.
pub open spec fn style_name(s: crate::model::Style) -> Seq<char> {
    match s {
        crate::model::Style::Any => "any"@,
        crate::model::Style::Plain => "plain"@,
        crate::model::Style::SingleQuoted => "single quoted"@,
        crate::model::Style::DoubleQuoted => "double quoted"@,
        crate::model::Style::Literal => "literal"@,
        crate::model::Style::Folded => "folded"@,
    }
}

/// The text a scalar shows: its decoded bytes, or a fallback marker when
/// they are not valid UTF-8.
pub open spec fn scalar_text(t: Seq<u8>) -> Seq<char> {
    if valid_utf8(t) {
        decode_utf8(t)
    } else {
        "<None>"@
    }
}

/// The rendering of a scalar: its text, its style name, and its byte
/// length.
pub open spec fn scalar_render(t: Seq<u8>, st: crate::model::Style) -> Seq<char> {
    "Scalar ( "@ + scalar_text(t) + ", style: "@ + style_name(st) + ", length: "@ + dec_str(
        t.len(),
    ) + " )"@
}

/// The rendering of the node of id `id`, with `depth` recursion steps left.
pub open spec fn render_spec(d: DocV, id: int, depth: nat) -> Result<Seq<char>, RenderError>
    decreases depth, 0nat, 0nat,
{
    if depth == 0 {
        Err(RenderError::TooDeep)
    } else {
        match node_at(d, id) {
            NodeV::Absent => Ok("None"@),
            NodeV::Scalar { text, style } => Ok(scalar_render(text, style)),
            NodeV::Sequence { items } => match render_items(d, items, (depth - 1) as nat) {
                Ok(s) => Ok("List [ "@ + s + " ]"@),
                Err(e) => Err(e),
            },
            NodeV::Mapping { pairs } => match render_pairs(d, pairs, (depth - 1) as nat) {
                Ok(s) => Ok("Map { "@ + s + " }"@),
                Err(e) => Err(e),
            },
        }
    }
}

/// The renderings of a sequence's items, joined by a comma and a space.
pub open spec fn render_items(d: DocV, items: Seq<usize>, depth: nat) -> Result<
    Seq<char>,
    RenderError,
>
    decreases depth, 1nat, items.len(),
{
    if items.len() == 0 {
        Ok(Seq::<char>::empty())
    } else {
        match render_spec(d, items[0] as int, depth) {
            Err(e) => Err(e),
            Ok(s) => if items.len() == 1 {
                Ok(s)
            } else {
                match render_items(d, items.drop_first(), depth) {
                    Err(e) => Err(e),
                    Ok(rest) => Ok(s + ", "@ + rest),
                }
            },
        }
    }
}

/// The renderings of a mapping's pairs, each key and value rendered in
/// full, joined by a comma and a space.
pub open spec fn render_pairs(d: DocV, pairs: Seq<Pair>, depth: nat) -> Result<
    Seq<char>,
    RenderError,
>
    decreases depth, 1nat, pairs.len(),
{
    if pairs.len() == 0 {
        Ok(Seq::<char>::empty())
    } else {
        match render_spec(d, pairs[0].key as int, depth) {
            Err(e) => Err(e),
            Ok(ks) => match render_spec(d, pairs[0].value as int, depth) {
                Err(e) => Err(e),
                Ok(vs) => if pairs.len() == 1 {
                    Ok(ks + ": "@ + vs)
                } else {
                    match render_pairs(d, pairs.drop_first(), depth) {
                        Err(e) => Err(e),
                        Ok(rest) => Ok(ks + ": "@ + vs + ", "@ + rest),
                    }
                },
            },
        }
    }
}

/// The display name of a scalar style, as a string slice.
fn style_str(s: &crate::model::Style) -> (r: &'static str)
    ensures
        r@ == style_name(*s),
{
    match s {
        crate::model::Style::Any => "any",
        crate::model::Style::Plain => "plain",
        crate::model::Style::SingleQuoted => "single quoted",
        crate::model::Style::DoubleQuoted => "double quoted",
        crate::model::Style::Literal => "literal",
        crate::model::Style::Folded => "folded",
    }
}

/// Renders the node of id `id` of a document, with `depth` recursion steps
/// left.
pub fn render_node(doc: &Document, id: usize, depth: usize) -> (r: Result<String, RenderError>)
    ensures
        match r {
            Ok(s) => render_spec(doc@, id as int, depth as nat) == Ok::<Seq<char>, RenderError>(
                s@,
            ),
            Err(e) => render_spec(doc@, id as int, depth as nat) == Err::<Seq<char>, RenderError>(
                e,
            ),
        },
    decreases depth, 0nat, 0nat,
{
    if depth == 0 {
        return Err(RenderError::TooDeep);
    }
    let n = doc.len();
    if id < 1 || id > n {
        return Ok(String::from_str("None"));
    }
    let node = match doc.get_node(id) {
        Some(x) => x,
        None => {
            proof {
                assert(false);
            }
            return Err(RenderError::TooDeep);
        },
    };
    match node.data() {
        NodeData::Absent => Ok(String::from_str("None")),
        NodeData::Scalar { text, style } => {
            let mut out = String::from_str("Scalar ( ");
            match bytes_to_str(text.as_slice()) {
                Some(s) => {
                    proof {
                        encode_utf8_decode_utf8(s@);
                    }
                    out.append(s);
                },
                None => out.append("<None>"),
            }
            out.append(", style: ");
            out.append(style_str(style));
            out.append(", length: ");
            let lenstr = usize_to_string(text.len());
            out.append(lenstr.as_str());
            out.append(" )");
            proof {
                assert(out@ =~= scalar_render(text@, *style));
            }
            Ok(out)
        },
        NodeData::Sequence { items } => {
            match render_items_from(doc, items, 0, depth - 1) {
                Err(e) => {
                    proof {
                        assert(items@.skip(0) =~= items@);
                    }
                    Err(e)
                },
                Ok(s) => {
                    proof {
                        assert(items@.skip(0) =~= items@);
                    }
                    let mut out = String::from_str("List [ ");
                    out.append(s.as_str());
                    out.append(" ]");
                    Ok(out)
                },
            }
        },
        NodeData::Mapping { pairs } => {
            match render_pairs_from(doc, pairs, 0, depth - 1) {
                Err(e) => {
                    proof {
                        assert(pairs@.skip(0) =~= pairs@);
                    }
                    Err(e)
                },
                Ok(s) => {
                    proof {
                        assert(pairs@.skip(0) =~= pairs@);
                    }
                    let mut out = String::from_str("Map { ");
                    out.append(s.as_str());
                    out.append(" }");
                    Ok(out)
                },
            }
        },
    }
}

/// Renders the items of a sequence from position `k` on.
fn render_items_from(doc: &Document, items: &Vec<usize>, k: usize, depth: usize) -> (r: Result<
    String,
    RenderError,
>)
    requires
        k <= items@.len(),
    ensures
        match r {
            Ok(s) => render_items(doc@, items@.skip(k as int), depth as nat) == Ok::<
                Seq<char>,
                RenderError,
            >(s@),
            Err(e) => render_items(doc@, items@.skip(k as int), depth as nat) == Err::<
                Seq<char>,
                RenderError,
            >(e),
        },
    decreases depth, 1nat, items@.len() - k,
{
    let ghost sk = items@.skip(k as int);
    if k == items.len() {
        proof {
            assert(sk =~= Seq::<usize>::empty());
        }
        return Ok(String::new());
    }
    proof {
        assert(sk[0] == items@[k as int]);
    }
    match render_node(doc, items[k], depth) {
        Err(e) => Err(e),
        Ok(s) => {
            if k + 1 == items.len() {
                proof {
                    assert(sk.len() == 1);
                }
                Ok(s)
            } else {
                match render_items_from(doc, items, k + 1, depth) {
                    Err(e) => {
                        proof {
                            assert(sk.drop_first() =~= items@.skip(k as int + 1));
                        }
                        Err(e)
                    },
                    Ok(rest) => {
                        proof {
                            assert(sk.drop_first() =~= items@.skip(k as int + 1));
                        }
                        let mut out = s;
                        out.append(", ");
                        out.append(rest.as_str());
                        Ok(out)
                    },
                }
            }
        },
    }
}

/// Renders the pairs of a mapping from position `k` on.
fn render_pairs_from(doc: &Document, pairs: &Vec<Pair>, k: usize, depth: usize) -> (r: Result<
    String,
    RenderError,
>)
    requires
        k <= pairs@.len(),
    ensures
        match r {
            Ok(s) => render_pairs(doc@, pairs@.skip(k as int), depth as nat) == Ok::<
                Seq<char>,
                RenderError,
            >(s@),
            Err(e) => render_pairs(doc@, pairs@.skip(k as int), depth as nat) == Err::<
                Seq<char>,
                RenderError,
            >(e),
        },
    decreases depth, 1nat, pairs@.len() - k,
{
    let ghost sk = pairs@.skip(k as int);
    if k == pairs.len() {
        proof {
            assert(sk =~= Seq::<Pair>::empty());
        }
        return Ok(String::new());
    }
    proof {
        assert(sk[0] == pairs@[k as int]);
    }
    let p = pairs[k];
    match render_node(doc, p.key, depth) {
        Err(e) => Err(e),
        Ok(ks) => {
            match render_node(doc, p.value, depth) {
                Err(e) => Err(e),
                Ok(vs) => {
                    let mut entry = ks;
                    entry.append(": ");
                    entry.append(vs.as_str());
                    if k + 1 == pairs.len() {
                        proof {
                            assert(sk.len() == 1);
                        }
                        Ok(entry)
                    } else {
                        match render_pairs_from(doc, pairs, k + 1, depth) {
                            Err(e) => {
                                proof {
                                    assert(sk.drop_first() =~= pairs@.skip(k as int + 1));
                                }
                                Err(e)
                            },
                            Ok(rest) => {
                                proof {
                                    assert(sk.drop_first() =~= pairs@.skip(k as int + 1));
                                }
                                entry.append(", ");
                                entry.append(rest.as_str());
                                Ok(entry)
                            },
                        }
                    }
                },
            }
        },
    }
}

impl<'a> Node<'a> {
    /// Renders this node and its reachable subtree into a display string,
    /// one formatting rule per variant, with the default depth cap.
    pub fn render(&self) -> (r: Result<String, RenderError>)
        ensures
            match r {
                Ok(s) => render_spec(self.doc_view(), self.spec_id(), RENDER_DEPTH_LIMIT as nat)
                    == Ok::<Seq<char>, RenderError>(s@),
                Err(e) => render_spec(self.doc_view(), self.spec_id(), RENDER_DEPTH_LIMIT as nat)
                    == Err::<Seq<char>, RenderError>(e),
            },
    {
        render_node(self.document(), self.id(), RENDER_DEPTH_LIMIT)
    }
}

/// Rendering an empty sequence node never truncates or errs: with at least
/// one recursion step left it produces exactly the empty bracket pair.
pub proof fn lemma_render_empty_sequence(d: DocV, id: int, depth: nat)
    requires
        node_at(d, id) == (NodeV::Sequence { items: Seq::<usize>::empty() }),
        depth >= 1,
    ensures
        render_spec(d, id, depth) == Ok::<Seq<char>, RenderError>("List [  ]"@),
{
    reveal_strlit("List [ ");
    reveal_strlit(" ]");
    reveal_strlit("List [  ]");
    assert("List [ "@ + Seq::<char>::empty() + " ]"@ =~= "List [  ]"@);
}

/// Rendering an empty mapping node never truncates or errs: with at least
/// one recursion step left it produces exactly the empty brace pair.
pub proof fn lemma_render_empty_mapping(d: DocV, id: int, depth: nat)
    requires
        node_at(d, id) == (NodeV::Mapping { pairs: Seq::<Pair>::empty() }),
        depth >= 1,
    ensures
        render_spec(d, id, depth) == Ok::<Seq<char>, RenderError>("Map {  }"@),
{
    reveal_strlit("Map { ");
    reveal_strlit(" }");
    reveal_strlit("Map {  }");
    assert("Map { "@ + Seq::<char>::empty() + " }"@ =~= "Map {  }"@);
}

} // verus!
