//! Generator core for lowering an OpenAPI v3 document to typed client and
//! server source text: a spec model, a JSON-pointer utility, a deterministic
//! renamer, an analyzer that discovers named schemas and operation
//! definitions, and three writers that emit the generated source.

pub mod analyzer;
pub mod case;
pub mod chars;
pub mod client_writer;
pub mod json;
pub mod lower;
pub mod model;
pub mod petstore;
pub mod pointer;
pub mod refs;
pub mod renamer;
pub mod server_writer;
pub mod trusted;
pub mod types_writer;

use vstd::prelude::*;

verus! {

/// One element of a parsed operation path: either a literal segment or a
/// placeholder naming a path parameter. An empty segment stands for each
/// `/` of the pattern, so that literal text and placeholders keep their
/// places between the separators.
#[derive(Debug, Clone, PartialEq, Eq)]
pub enum SegmentOrParameter {
    Segment(String),
    Parameter(String),
}

/// Mathematical form of a path element.
pub enum SegmentOrParameterV {
    Segment(Seq<char>),
    Parameter(Seq<char>),
}

impl View for SegmentOrParameter {
    type V = SegmentOrParameterV;

    open spec fn view(&self) -> SegmentOrParameterV {
        match self {
            SegmentOrParameter::Segment(s) => SegmentOrParameterV::Segment(s@),
            SegmentOrParameter::Parameter(s) => SegmentOrParameterV::Parameter(s@),
        }
    }
}

impl SegmentOrParameter {
    /// True when the carried text is empty, whichever side it is on.
    pub fn is_empty(&self) -> (r: bool)
        ensures
            r == (self.text_view().len() == 0),
    {
        match self {
            SegmentOrParameter::Segment(s) => s.as_str().is_empty(),
            SegmentOrParameter::Parameter(s) => s.as_str().is_empty(),
        }
    }

    /// The carried text, whichever side it is on.
    pub open spec fn text_view(&self) -> Seq<char> {
        match self {
            SegmentOrParameter::Segment(s) => s@,
            SegmentOrParameter::Parameter(s) => s@,
        }
    }

    pub fn as_segment(&self) -> (r: Option<&String>)
        ensures
            match r {
                Some(s) => self is Segment && s@ == self->Segment_0@,
                None => !(self is Segment),
            },
    {
        match self {
            SegmentOrParameter::Segment(s) => Some(s),
            _ => None,
        }
    }

    pub fn as_parameter(&self) -> (r: Option<&String>)
        ensures
            match r {
                Some(s) => self is Parameter && s@ == self->Parameter_0@,
                None => !(self is Parameter),
            },
    {
        match self {
            SegmentOrParameter::Parameter(s) => Some(s),
            _ => None,
        }
    }
}

} // verus!
