//! Loading: staging input bytes and turning the engine's parse result into
//! an owned, well-formed [`Document`].
//!
//! The grammar work happens in the external engine; this module extracts
//! the engine's node table record by record, checks the arena invariant,
//! and owns the result. No partial document is ever handed out.
use vstd::prelude::*;

use vstd::string::StringSliceAdditionalSpecFns;
use vstd::string::StrSliceExecFns;

use crate::engine::eng_len;
use crate::engine::eng_load;
use crate::engine::eng_node_at;
use crate::engine::yaml_parse;
use crate::errors::LoadError;
use crate::model::records_wf;
use crate::model::recs_view;
use crate::model::Document;
use crate::model::NodeData;

verus! {

/// Stages input for the external grammar engine and loads documents from
/// it.
pub struct Parser {
    input: Option<Vec<u8>>,
}

impl View for Parser {
    type V = Option<Seq<u8>>;

    closed spec fn view(&self) -> Option<Seq<u8>> {
        match self.input {
            Some(ref v) => Some(v@),
            None => None,
        }
    }
}

impl Parser {
    /// A parser with no input configured yet.
    pub fn new() -> (p: Parser)
        ensures
            p@ == Option::<Seq<u8>>::None,
    {
        Parser { input: None }
    }

    /// Stages an in-memory string as the input to parse.
    pub fn set_input_string(&mut self, input: &str)
        ensures
            final(self)@ == Some(input.spec_bytes()),
    {
        self.input = Some(input.as_bytes_vec());
    }

    /// Runs the engine's parser over the staged input and reports whether
    /// it accepts, without building a document. With no input staged this
    /// fails as an input error.
    pub fn parse(&mut self) -> (r: Result<(), LoadError>)
        ensures
            final(self)@ == old(self)@,
            match old(self)@ {
                None => r == Err::<(), LoadError>(LoadError::Io),
                Some(b) => match yaml_parse(b) {
                    Ok(_) => r == Ok::<(), LoadError>(()),
                    Err(e) => r == Err::<(), LoadError>(e),
                },
            },
    {
        match &self.input {
            None => Err(LoadError::Io),
            Some(v) => match eng_load(v.as_slice()) {
                Ok(_) => Ok(()),
                Err(e) => Err(e),
            },
        }
    }

    /// Loads the staged input into `document`: on success the document owns
    /// the engine's node table, checked against the arena invariant, with
    /// node 1 as the root (or no root for an empty stream). On failure the
    /// document is left as it was.
    pub fn load(&mut self, document: &mut Document) -> (r: Result<(), LoadError>)
        ensures
            final(self)@ == old(self)@,
            match old(self)@ {
                None => r == Err::<(), LoadError>(LoadError::Io) && final(document)@ == old(
                    document)@,
                Some(b) => match yaml_parse(b) {
                    Err(e) => r == Err::<(), LoadError>(e) && final(document)@ == old(document)@,
                    Ok(nodes) => if records_wf(nodes) {
                        r == Ok::<(), LoadError>(()) && final(document)@.nodes == nodes && final(
                            document)@.root == (if nodes.len() == 0 { 0int } else { 1int })
                    } else {
                        r == Err::<(), LoadError>(LoadError::Syntax) && final(document)@ == old(
                            document)@
                    },
                },
            },
    {
        let ed = match &self.input {
            None => {
                return Err(LoadError::Io);
            },
            Some(v) => match eng_load(v.as_slice()) {
                Ok(ed) => ed,
                Err(e) => {
                    return Err(e);
                },
            },
        };
        let m = eng_len(&ed);
        let mut records: Vec<NodeData> = Vec::new();
        let mut i: usize = 0;
        while i < m
            invariant
                m == crate::engine::eng_contents(ed).len(),
                i <= m,
                records@.len() == i,
                recs_view(records@) == crate::engine::eng_contents(ed).take(i as int),
            decreases m - i,
        {
            let rec = eng_node_at(&ed, i);
            records.push(rec);
            proof {
                assert(recs_view(records@) =~= crate::engine::eng_contents(ed).take(i + 1));
            }
            i += 1;
        }
        proof {
            assert(crate::engine::eng_contents(ed).take(m as int) =~= crate::engine::eng_contents(
                ed,
            ));
        }
        match Document::from_records(records) {
            Some(d) => {
                *document = d;
                Ok(())
            },
            None => Err(LoadError::Syntax),
        }
    }
}

/// Loads one document from an in-memory string: the parsed tree on
/// success, `EmptyStream` when the input holds no document at all, and the
/// engine's own error otherwise.
pub fn loads(data: &str) -> (r: Result<Document, LoadError>)
    ensures
        match yaml_parse(data.spec_bytes()) {
            Err(e) => r == Err::<Document, LoadError>(e),
            Ok(nodes) => if nodes.len() == 0 {
                r == Err::<Document, LoadError>(LoadError::EmptyStream)
            } else if records_wf(nodes) {
                r matches Ok(d) && d@.nodes == nodes && d@.root == 1
            } else {
                r == Err::<Document, LoadError>(LoadError::Syntax)
            },
        },
{
    let mut p = Parser::new();
    p.set_input_string(data);
    let mut document = Document::new();
    match p.load(&mut document) {
        Err(e) => Err(e),
        Ok(()) => {
            if document.len() == 0 {
                Err(LoadError::EmptyStream)
            } else {
                Ok(document)
            }
        },
    }
}

} // verus!
