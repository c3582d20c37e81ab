//! The events that a document is split into.

use vstd::prelude::*;

verus! {

/// A name and a value on a start tag.
#[derive(Debug, Clone, PartialEq, Eq)]
pub struct Attribute {
    pub name: String,
    pub value: String,
}

impl View for Attribute {
    type V = (Seq<char>, Seq<char>);

    open spec fn view(&self) -> (Seq<char>, Seq<char>) {
        (self.name@, self.value@)
    }
}

/// The name and the value of each attribute, in order.
pub open spec fn attribute_views(attributes: Seq<Attribute>) -> Seq<(Seq<char>, Seq<char>)> {
    Seq::new(attributes.len(), |i: int| attributes[i]@)
}

/// One event of a document, names without their prefix.
#[derive(Debug, Clone, PartialEq, Eq)]
pub enum Event {
    StartDocument,
    EndDocument,
    ProcessingInstruction,
    StartElement { name: String, attributes: Vec<Attribute> },
    EndElement { name: String },
    CData,
    Comment,
    Characters(String),
    Whitespace,
}

impl Event {
    /// The word by which an error names an event of this kind.
    pub open spec fn kind_name(&self) -> Seq<char> {
        match self {
            Event::StartDocument => "StartDocument"@,
            Event::EndDocument => "EndDocument"@,
            Event::ProcessingInstruction => "ProcessingInstruction"@,
            Event::StartElement { .. } => "StartElement"@,
            Event::EndElement { .. } => "EndElement"@,
            Event::CData => "CData"@,
            Event::Comment => "Comment"@,
            Event::Characters(_) => "Characters"@,
            Event::Whitespace => "Whitespace"@,
        }
    }

    /// Names the kind of this event, for an error that found it where
    /// another was expected.
    pub fn describe(&self) -> (word: String)
        ensures
            word@ == self.kind_name(),
    {
        match self {
            Event::StartDocument => "StartDocument".to_owned(),
            Event::EndDocument => "EndDocument".to_owned(),
            Event::ProcessingInstruction => "ProcessingInstruction".to_owned(),
            Event::StartElement { .. } => "StartElement".to_owned(),
            Event::EndElement { .. } => "EndElement".to_owned(),
            Event::CData => "CData".to_owned(),
            Event::Comment => "Comment".to_owned(),
            Event::Characters(_) => "Characters".to_owned(),
            Event::Whitespace => "Whitespace".to_owned(),
        }
    }
}

} // verus!
