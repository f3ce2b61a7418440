//! Indexing: finding the child of a mapping node by key text, and the child
//! of a sequence node by position.
//!
//! Key lookup scans the pairs in source order and returns the value paired
//! with the *first* key whose bytes decode equal to the requested text; a
//! miss is the normal `None` result, while asking a non-mapping node for a
//! key, or meeting a scalar key that is not valid UTF-8, is an error.
use vstd::prelude::*;

use vstd::string::StringSliceAdditionalSpecFns;
use vstd::utf8::decode_utf8;
use vstd::utf8::decode_utf8_encode_utf8;
use vstd::utf8::encode_utf8_decode_utf8;
use vstd::utf8::valid_utf8;

use crate::errors::LookupError;
use crate::model::node_at;
use crate::model::node_children_in_range;
use crate::model::records_wf;
use crate::model::DocV;
use crate::model::Node;
use crate::model::NodeData;
use crate::model::NodeV;
use crate::model::Pair;
use crate::text::bytes_to_str;
use crate::text::eq_bytes;

verus! {

/// Whether scalar bytes decode to exactly the key text.
pub open spec fn key_matches(t: Seq<u8>, key: Seq<char>) -> bool {
    valid_utf8(t) && decode_utf8(t) == key
}

/// Whether the node of id `kid` is a scalar whose bytes are not valid UTF-8.
pub open spec fn key_malformed(d: DocV, kid: usize) -> bool {
    match node_at(d, kid as int) {
        NodeV::Scalar { text, .. } => !valid_utf8(text),
        _ => false,
    }
}

/// Whether the node of id `kid` is a scalar whose bytes decode to `key`.
pub open spec fn pair_key_matches(d: DocV, kid: usize, key: Seq<char>) -> bool {
    match node_at(d, kid as int) {
        NodeV::Scalar { text, .. } => key_matches(text, key),
        _ => false,
    }
}

/// The first-match scan over a mapping's pairs: the earliest pair whose key
/// decodes equal to `key` decides the result; a malformed scalar key met
/// before any match is a hard failure; non-scalar keys are skipped.
pub open spec fn scan_pairs(d: DocV, pairs: Seq<Pair>, key: Seq<char>) -> Result<
    Option<usize>,
    LookupError,
>
    decreases pairs.len(),
{
    if pairs.len() == 0 {
        Ok(None)
    } else if key_malformed(d, pairs[0].key) {
        Err(LookupError::MalformedKeyEncoding)
    } else if pair_key_matches(d, pairs[0].key, key) {
        Ok(Some(pairs[0].value))
    } else {
        scan_pairs(d, pairs.drop_first(), key)
    }
}

/// The result of a key lookup on the node of id `id`: the scan of its pairs
/// when it is a mapping, and `NotAMapping` for every other kind of node.
pub open spec fn lookup_spec(d: DocV, id: int, key: Seq<char>) -> Result<
    Option<usize>,
    LookupError,
> {
    match node_at(d, id) {
        NodeV::Mapping { pairs } => scan_pairs(d, pairs, key),
        _ => Err(LookupError::NotAMapping),
    }
}

/// The result of a positional lookup on the node of id `id`: the item at
/// `pos` when it is a sequence and the position is in bounds, `None` when
/// the position is out of bounds, and `NotASequence` for every other kind.
pub open spec fn index_spec(d: DocV, id: int, pos: int) -> Result<Option<usize>, LookupError> {
    match node_at(d, id) {
        NodeV::Sequence { items } => if 0 <= pos < items.len() {
            Ok(Some(items[pos]))
        } else {
            Ok(None)
        },
        _ => Err(LookupError::NotASequence),
    }
}

/// First-match lookup is insensitive to later duplicates: when the pair at
/// position `i` is the earliest whose key decodes equal to `key` (and no
/// earlier scalar key is malformed), the scan returns exactly that pair's
/// value, whatever stands after it.
pub proof fn lemma_scan_pairs_first_match(d: DocV, pairs: Seq<Pair>, key: Seq<char>, i: int)
    requires
        0 <= i < pairs.len(),
        pair_key_matches(d, pairs[i].key, key),
        forall|j: int|
            0 <= j < i ==> !pair_key_matches(d, (#[trigger] pairs[j]).key, key) && !key_malformed(
                d,
                pairs[j].key,
            ),
    ensures
        scan_pairs(d, pairs, key) == Ok::<Option<usize>, LookupError>(Some(pairs[i].value)),
    decreases i,
{
    if i == 0 {
    } else {
        assert(pairs[0] == pairs[0int]);
        lemma_scan_pairs_first_match(d, pairs.drop_first(), key, i - 1);
        assert(pairs.drop_first()[i - 1] == pairs[i]);
    }
}

/// When no pair's key decodes equal to `key` and no scalar key is
/// malformed, the scan misses: it returns the normal `None` result, not an
/// error.
pub proof fn lemma_scan_pairs_no_match(d: DocV, pairs: Seq<Pair>, key: Seq<char>)
    requires
        forall|j: int|
            0 <= j < pairs.len() ==> !pair_key_matches(d, (#[trigger] pairs[j]).key, key)
                && !key_malformed(d, pairs[j].key),
    ensures
        scan_pairs(d, pairs, key) == Ok::<Option<usize>, LookupError>(None),
    decreases pairs.len(),
{
    if pairs.len() == 0 {
    } else {
        assert(pairs[0] == pairs[0int]);
        lemma_scan_pairs_no_match(d, pairs.drop_first(), key);
    }
}

/// First-match lookup, stated of `lookup` itself: on a mapping node whose
/// pair at position `i` is the earliest whose key decodes equal to `key`
/// (with no earlier malformed scalar key), the lookup returns exactly that
/// pair's value — duplicate keys further on change nothing.
pub proof fn lemma_lookup_first_match(d: DocV, id: int, pairs: Seq<Pair>, key: Seq<char>, i: int)
    requires
        node_at(d, id) == (NodeV::Mapping { pairs }),
        0 <= i < pairs.len(),
        pair_key_matches(d, pairs[i].key, key),
        forall|j: int|
            0 <= j < i ==> !pair_key_matches(d, (#[trigger] pairs[j]).key, key) && !key_malformed(
                d,
                pairs[j].key,
            ),
    ensures
        lookup_spec(d, id, key) == Ok::<Option<usize>, LookupError>(Some(pairs[i].value)),
{
    lemma_scan_pairs_first_match(d, pairs, key, i);
}

/// Miss-as-`None`, stated of `lookup` itself: on a mapping node none of
/// whose keys decodes equal to `key` (and none of whose scalar keys is
/// malformed), the lookup returns the normal `None` result, not an error.
pub proof fn lemma_lookup_no_match(d: DocV, id: int, pairs: Seq<Pair>, key: Seq<char>)
    requires
        node_at(d, id) == (NodeV::Mapping { pairs }),
        forall|j: int|
            0 <= j < pairs.len() ==> !pair_key_matches(d, (#[trigger] pairs[j]).key, key)
                && !key_malformed(d, pairs[j].key),
    ensures
        lookup_spec(d, id, key) == Ok::<Option<usize>, LookupError>(None),
{
    lemma_scan_pairs_no_match(d, pairs, key);
}

/// A key lookup on a node that is not a mapping — a scalar, a sequence, or
/// the absent node — always signals `NotAMapping`: never `None`, never a
/// phantom child.
pub proof fn lemma_lookup_non_mapping(d: DocV, id: int, key: Seq<char>)
    requires
        !(node_at(d, id) matches NodeV::Mapping { .. }),
    ensures
        lookup_spec(d, id, key) == Err::<Option<usize>, LookupError>(LookupError::NotAMapping),
{
}

impl<'a> Node<'a> {
    /// Looks up the child of this mapping node by key text: the value paired
    /// with the first key that decodes equal to `key`, `None` on a miss,
    /// `NotAMapping` when this node is not a mapping, and
    /// `MalformedKeyEncoding` when a scalar key met before any match holds
    /// bytes that are not valid UTF-8.
    pub fn lookup(&self, key: &str) -> (r: Result<Option<Node<'a>>, LookupError>)
        ensures
            match r {
                Ok(Some(n)) => lookup_spec(self.doc_view(), self.spec_id(), key@) matches Ok(
                    Some(v),
                ) && n.doc_view() == self.doc_view() && n.spec_id() == v,
                Ok(None) => lookup_spec(self.doc_view(), self.spec_id(), key@) == Ok::<
                    Option<usize>,
                    LookupError,
                >(None),
                Err(e) => lookup_spec(self.doc_view(), self.spec_id(), key@) == Err::<
                    Option<usize>,
                    LookupError,
                >(e),
            },
    {
        let ghost dv = self.doc_view();
        let doc = self.document();
        doc.arena_wf();
        let data = self.data();
        match data {
            NodeData::Mapping { pairs } => {
                proof {
                    assert(node_children_in_range(dv.nodes[self.spec_id() - 1], dv.nodes.len() as int));
                }
                let kb = key.as_bytes();
                let n = pairs.len();
                proof {
                    assert(pairs@.skip(0) =~= pairs@);
                }
                let mut i: usize = 0;
                while i < n
                    invariant
                        n == pairs@.len(),
                        i <= n,
                        dv == self.doc_view(),
                        doc@ == dv,
                        records_wf(dv.nodes),
                        node_at(dv, self.spec_id()) == (NodeV::Mapping { pairs: pairs@ }),
                        crate::model::pair_ids_ok(pairs@, dv.nodes.len() as int),
                        kb@ == key.spec_bytes(),
                        scan_pairs(dv, pairs@, key@) == scan_pairs(dv, pairs@.skip(i as int), key@),
                    decreases n - i,
                {
                    let ghost sk = pairs@.skip(i as int);
                    proof {
                        assert(sk[0] == pairs@[i as int]);
                    }
                    let p = pairs[i];
                    let kn = match doc.get_node(p.key) {
                        Some(x) => x,
                        None => {
                            proof {
                                assert((#[trigger] pairs@[i as int]).key >= 1);
                                assert(false);
                            }
                            return Err(LookupError::NotAMapping);
                        },
                    };
                    match kn.data() {
                        NodeData::Scalar { text, .. } => {
                            match bytes_to_str(text.as_slice()) {
                                None => {
                                    proof {
                                        assert(key_malformed(dv, p.key));
                                        assert(scan_pairs(dv, sk, key@) == Err::<
                                            Option<usize>,
                                            LookupError,
                                        >(LookupError::MalformedKeyEncoding));
                                    }
                                    return Err(LookupError::MalformedKeyEncoding);
                                },
                                Some(_) => {
                                    if eq_bytes(text, kb) {
                                        proof {
                                            encode_utf8_decode_utf8(key@);
                                            assert(pair_key_matches(dv, p.key, key@));
                                            assert(!key_malformed(dv, p.key));
                                            assert(scan_pairs(dv, sk, key@) == Ok::<
                                                Option<usize>,
                                                LookupError,
                                            >(Some(p.value)));
                                        }
                                        let vn = match doc.get_node(p.value) {
                                            Some(x) => x,
                                            None => {
                                                proof {
                                                    assert(false);
                                                }
                                                return Err(LookupError::NotAMapping);
                                            },
                                        };
                                        return Ok(Some(vn));
                                    } else {
                                        proof {
                                            decode_utf8_encode_utf8(text@);
                                            assert(!key_matches(text@, key@));
                                        }
                                    }
                                },
                            }
                        },
                        _ => {
                            proof {
                                assert(!key_malformed(dv, p.key));
                                assert(!pair_key_matches(dv, p.key, key@));
                            }
                        },
                    }
                    proof {
                        assert(!key_malformed(dv, sk[0].key));
                        assert(!pair_key_matches(dv, sk[0].key, key@));
                        assert(sk.drop_first() =~= pairs@.skip(i as int + 1));
                    }
                    i += 1;
                }
                proof {
                    assert(pairs@.skip(n as int) =~= Seq::<Pair>::empty());
                }
                Ok(None)
            },
            _ => Err(LookupError::NotAMapping),
        }
    }

    /// Looks up the child of this sequence node by position: the item at
    /// `position`, `None` when the position is out of bounds, and
    /// `NotASequence` when this node is not a sequence.
    pub fn index(&self, position: usize) -> (r: Result<Option<Node<'a>>, LookupError>)
        ensures
            match r {
                Ok(Some(n)) => index_spec(self.doc_view(), self.spec_id(), position as int)
                    matches Ok(Some(v)) && n.doc_view() == self.doc_view() && n.spec_id() == v,
                Ok(None) => index_spec(self.doc_view(), self.spec_id(), position as int) == Ok::<
                    Option<usize>,
                    LookupError,
                >(None),
                Err(e) => index_spec(self.doc_view(), self.spec_id(), position as int) == Err::<
                    Option<usize>,
                    LookupError,
                >(e),
            },
    {
        let ghost dv = self.doc_view();
        let doc = self.document();
        doc.arena_wf();
        let data = self.data();
        match data {
            NodeData::Sequence { items } => {
                if position < items.len() {
                    proof {
                        assert(node_children_in_range(
                            dv.nodes[self.spec_id() - 1],
                            dv.nodes.len() as int,
                        ));
                        assert(1 <= items@[position as int] <= dv.nodes.len());
                    }
                    let child = items[position];
                    match doc.get_node(child) {
                        Some(x) => Ok(Some(x)),
                        None => {
                            proof {
                                assert(false);
                            }
                            Err(LookupError::NotASequence)
                        },
                    }
                } else {
                    Ok(None)
                }
            },
            _ => Err(LookupError::NotASequence),
        }
    }
}

} // verus!
