//! Splitting markup text into events.

use vstd::prelude::*;
use crate::event::{Attribute, Event};

verus! {

/// An event as the tokenizer hands it out.
#[verifier::external_type_specification]
#[verifier::external_body]
pub struct ExXmlEvent(xml::reader::XmlEvent);

/// What the tokenizer reads from a text: its events in document order,
/// each as the tokenizer hands it out, or the error in its place.
pub uninterp spec fn reader_events(input: Seq<char>) -> Seq<
    Result<xml::reader::XmlEvent, xml::reader::Error>,
>;

/// What a decode keeps of an event of the tokenizer.
pub uninterp spec fn event_of(event: xml::reader::XmlEvent) -> Event;

/// `xml::ParserConfig::create_reader` on the bytes of `input`, with
/// `trim_whitespace` set, and the reader's iterator run to its end. The
/// result is a function of the text alone, and is only given its name
/// here: nothing is claimed of which events a text has.
#[verifier::external_body]
fn read_events(input: &str) -> (raw: Vec<Result<xml::reader::XmlEvent, xml::reader::Error>>)
    ensures
        raw@ == reader_events(input@),
{
    xml::ParserConfig::new().trim_whitespace(true).create_reader(input.as_bytes()).into_iter().collect()
}

/// Tells the variants of `xml::reader::XmlEvent` apart and keeps of each
/// what a decode reads: local names, attribute values and text. The
/// result is a function of the event alone, and is only given its name
/// here.
#[verifier::external_body]
fn convert_event(event: xml::reader::XmlEvent) -> (converted: Event)
    ensures
        converted == event_of(event),
{
    match event {
        xml::reader::XmlEvent::StartDocument { .. } => Event::StartDocument,
        xml::reader::XmlEvent::EndDocument => Event::EndDocument,
        xml::reader::XmlEvent::ProcessingInstruction { .. } => Event::ProcessingInstruction,
        xml::reader::XmlEvent::StartElement { name, attributes, .. } => Event::StartElement {
            name: name.local_name,
            attributes: attributes.into_iter().map(|a| Attribute { name: a.name.local_name, value: a.value }).collect(),
        },
        xml::reader::XmlEvent::EndElement { name } => Event::EndElement { name: name.local_name },
        xml::reader::XmlEvent::CData(_) => Event::CData,
        xml::reader::XmlEvent::Comment(_) => Event::Comment,
        xml::reader::XmlEvent::Characters(text) => Event::Characters(text),
        xml::reader::XmlEvent::Whitespace(_) => Event::Whitespace,
    }
}

/// How many items come before the first error, or how many there are
/// where none is an error.
pub open spec fn first_failure(raw: Seq<Result<xml::reader::XmlEvent, xml::reader::Error>>) -> int
    decreases raw.len(),
{
    if raw.len() == 0 || raw[0] is Err {
        0
    } else {
        1 + first_failure(raw.skip(1))
    }
}

/// The events of a text: what a decode keeps of each event that the
/// tokenizer reads before its first error.
pub open spec fn token_events(input: Seq<char>) -> Seq<Event> {
    let raw = reader_events(input);
    Seq::new(first_failure(raw) as nat, |i: int| event_of(raw[i]->Ok_0))
}

/// The tokenizer's first error on a text, if it has one.
pub open spec fn token_failure(input: Seq<char>) -> Option<xml::reader::Error> {
    let raw = reader_events(input);
    if first_failure(raw) < raw.len() {
        Some(raw[first_failure(raw)]->Err_0)
    } else {
        None
    }
}

/// The events of a text and, where the markup is malformed, the
/// tokenizer's error, which stands for what follows the last event.
pub struct Tokens {
    pub events: Vec<Event>,
    pub failure: Option<xml::reader::Error>,
}

/// Splits `input` into its events, in document order, up to the
/// document's end or to the first place where the markup is malformed.
///
/// Every event that the tokenizer reads before its first error is kept,
/// in order; the error, if there is one, is kept beside them, and what
/// the tokenizer reads after it is dropped.
pub fn tokenize(input: &str) -> (tokens: Tokens)
    ensures
        tokens.events@ == token_events(input@),
        tokens.failure == token_failure(input@),
{
    let mut raw = read_events(input);
    let ghost all = raw@;
    let mut failure: Option<xml::reader::Error> = None;
    let mut reversed: Vec<Event> = Vec::new();
    proof {
        assert(all.skip(all.len() as int) =~= Seq::empty());
    }
    while raw.len() > 0
        invariant
            all == reader_events(input@),
            raw@.len() <= all.len(),
            raw@ == all.subrange(0, raw@.len() as int),
            reversed@.len() == first_failure(all.skip(raw@.len() as int)),
            forall|j: int|
                0 <= j < reversed@.len() ==> reversed@[j] == event_of(
                    all[raw@.len() + reversed@.len() - 1 - j]->Ok_0,
                ),
            raw@.len() + reversed@.len() <= all.len(),
            failure == if raw@.len() + reversed@.len() < all.len() {
                Some(all[(raw@.len() + reversed@.len()) as int]->Err_0)
            } else {
                None
            },
        decreases raw.len(),
    {
        let ghost k = raw@.len() as int;
        proof {
            assert(all.skip(k - 1).skip(1) =~= all.skip(k));
            assert(all.skip(k - 1)[0] == all[k - 1]);
            assert(raw@[k - 1] == all[k - 1]);
        }
        match raw.pop() {
            Some(Ok(event)) => {
                reversed.push(convert_event(event));
            },
            Some(Err(err)) => {
                failure = Some(err);
                reversed = Vec::new();
            },
            None => {},
        }
        proof {
            assert(raw@ =~= all.subrange(0, k - 1));
        }
    }
    proof {
        assert(all.skip(0) =~= all);
    }
    let ghost turned = reversed@;
    let mut events: Vec<Event> = Vec::new();
    while reversed.len() > 0
        invariant
            reversed@.len() + events@.len() == turned.len(),
            reversed@ == turned.subrange(0, reversed@.len() as int),
            forall|j: int| 0 <= j < events@.len() ==> events@[j] == turned[turned.len() - 1 - j],
        decreases reversed.len(),
    {
        let ghost k = reversed@.len() as int;
        match reversed.pop() {
            Some(event) => {
                events.push(event);
            },
            None => {},
        }
        proof {
            assert(reversed@ =~= turned.subrange(0, k - 1));
        }
    }
    proof {
        assert(events@ =~= token_events(input@));
    }
    Tokens { events, failure }
}

} // verus!
