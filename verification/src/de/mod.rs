//! The cursor over a document's events, and the model of a decode.

use vstd::prelude::*;
use vstd::string::*;
use crate::error::{reader_error_copy, with_message, DecodeError, ErrorImpl, Failure};
use crate::event::{attribute_views, Attribute, Event};

pub mod plain;
pub mod map;
pub mod value;
pub mod document;
pub mod laws;

verus! {

/// `xml::reader::Error::clone`: a copy of the tokenizer's error. The copy
/// is a function of the error alone, and is only given its name here.
#[verifier::external_body]
fn copy_reader_error(err: &xml::reader::Error) -> (copy: xml::reader::Error)
    ensures
        copy == reader_error_copy(*err),
{
    err.clone()
}

/// The event that a cursor shows next: the first that remains; after the
/// last one the tokenizer's failure, if it failed, else the document's end.
pub open spec fn peek_of(rest: Seq<Event>, failure: Option<xml::reader::Error>) -> Result<Event, Failure> {
    if rest.len() > 0 {
        Ok(rest[0])
    } else if failure is Some {
        Err(Failure::Malformed(reader_error_copy(failure->Some_0)))
    } else {
        Ok(Event::EndDocument)
    }
}

/// The error for an event that is not the expected one: the tokenizer's,
/// where it failed and no event remains; else one that says what was
/// expected and which kind of event was found.
pub open spec fn mismatch_failure(
    what: Seq<char>,
    rest: Seq<Event>,
    failure: Option<xml::reader::Error>,
) -> Failure {
    if rest.len() == 0 && failure is Some {
        Failure::Malformed(reader_error_copy(failure->Some_0))
    } else if rest.len() == 0 {
        Failure::Structure(what + ", found "@ + Event::EndDocument.kind_name())
    } else {
        Failure::Structure(what + ", found "@ + rest[0].kind_name())
    }
}

/// Whether `event` is the end tag of that name.
pub open spec fn is_end_of(event: Event, name: Seq<char>) -> bool {
    event matches Event::EndElement { name: n } && n@ == name
}

/// What remains once the end tag of that name, if it comes next, is
/// consumed. Any other event stays where it is.
pub open spec fn close(rest: Seq<Event>, name: Seq<char>) -> Seq<Event> {
    if rest.len() > 0 && is_end_of(rest[0], name) {
        rest.skip(1)
    } else {
        rest
    }
}

/// The description of an error: what was expected and what was found.
pub fn expected_found(what: &str, found: &Event) -> (text: String)
    ensures
        text@ == what@ + ", found "@ + found.kind_name(),
{
    let mut text = what.to_owned();
    text.append(", found ");
    text.append(found.describe().as_str());
    text
}

/// The single owner of a document's events. It consumes them front to
/// back and shows the next one without consuming it.
pub struct Deserializer {
    /// The events that remain, the next one last.
    stack: Vec<Event>,
    /// The tokenizer's error, which comes after the last event.
    failure: Option<xml::reader::Error>,
    /// The name of the element that was opened last.
    tag_name: Option<String>,
    /// The attributes of that element, until a record takes them.
    attributes: Option<Vec<Attribute>>,
}

impl Deserializer {
    /// The events that remain, the next one first.
    pub closed spec fn remaining(&self) -> Seq<Event> {
        Seq::new(self.stack@.len(), |i: int| self.stack@[self.stack@.len() - 1 - i])
    }

    /// The tokenizer's error, where it failed after the last event.
    pub closed spec fn failure(&self) -> Option<xml::reader::Error> {
        self.failure
    }

    /// The attributes of the element that was opened last.
    pub closed spec fn pending_attributes(&self) -> Seq<(Seq<char>, Seq<char>)> {
        match self.attributes {
            Some(a) => attribute_views(a@),
            None => Seq::empty(),
        }
    }

    /// The name of the element that was opened last.
    pub closed spec fn context_name(&self) -> Option<Seq<char>> {
        match self.tag_name {
            Some(name) => Some(name@),
            None => None,
        }
    }

    /// Whether `other` has the same element open.
    pub open spec fn same_context(&self, other: &Deserializer) -> bool {
        self.context_name() == other.context_name() && self.pending_attributes()
            == other.pending_attributes()
    }

    /// Whether `other` is at the same place of the same events.
    pub open spec fn same_place(&self, other: &Deserializer) -> bool {
        self.remaining() == other.remaining() && self.failure() == other.failure()
    }

    /// Makes the element of that name the open one.
    pub fn open_element(&mut self, name: String, attributes: Vec<Attribute>)
        ensures
            final(self).same_place(old(self)),
            final(self).context_name() == Some(name@),
            final(self).pending_attributes() == attribute_views(attributes@),
    {
        self.tag_name = Some(name);
        self.attributes = Some(attributes);
    }

    /// Hands out the attributes of the open element, which then has none.
    pub fn take_attributes(&mut self) -> (attributes: Vec<Attribute>)
        ensures
            final(self).same_place(old(self)),
            attribute_views(attributes@) == old(self).pending_attributes(),
            final(self).pending_attributes().len() == 0,
    {
        match self.attributes.take() {
            Some(attributes) => attributes,
            None => {
                let attributes: Vec<Attribute> = Vec::new();
                assert(attribute_views(attributes@) =~= Seq::empty());
                attributes
            },
        }
    }

    /// A cursor at the first of `events`.
    pub fn new(events: Vec<Event>) -> (de: Deserializer)
        ensures
            de.remaining() == events@,
            de.failure() is None,
            de.context_name() is None,
            de.pending_attributes().len() == 0,
    {
        Deserializer::with_failure(events, None)
    }

    /// A cursor at the first of `events`, after the last of which the
    /// tokenizer reported `failure`.
    pub fn with_failure(events: Vec<Event>, failure: Option<xml::reader::Error>) -> (de:
        Deserializer)
        ensures
            de.remaining() == events@,
            de.failure() == failure,
            de.context_name() is None,
            de.pending_attributes().len() == 0,
    {
        let mut events = events;
        let ghost all = events@;
        let mut stack: Vec<Event> = Vec::new();
        while events.len() > 0
            invariant
                events@.len() + stack@.len() == all.len(),
                forall|i: int| 0 <= i < events@.len() ==> events@[i] == all[i],
                forall|i: int| 0 <= i < stack@.len() ==> stack@[i] == all[all.len() - 1 - i],
            decreases events@.len(),
        {
            match events.pop() {
                Some(event) => stack.push(event),
                None => {},
            }
        }
        let de = Deserializer { stack, failure, tag_name: None, attributes: None };
        assert(de.remaining() =~= all);
        de
    }

    /// The error for an event that is not the expected one: the
    /// tokenizer's, where it failed and no event remains; else one that
    /// says what was expected and what was found.
    fn mismatch(&self, what: &str) -> (e: DecodeError)
        ensures
            e.failure() == mismatch_failure(what@, self.remaining(), self.failure()),
    {
        let n = self.stack.len();
        if n == 0 {
            match &self.failure {
                Some(err) => crate::error::reader(copy_reader_error(err)),
                None => with_message(expected_found(what, &Event::EndDocument)),
            }
        } else {
            with_message(expected_found(what, &self.stack[n - 1]))
        }
    }

    /// Shows the next event without consuming it. `None` stands for the
    /// document's end, once no event remains.
    pub fn peek(&self) -> (r: Result<Option<&Event>, DecodeError>)
        ensures
            match r {
                Ok(Some(event)) => self.remaining().len() > 0 && *event == self.remaining()[0],
                Ok(None) => self.remaining().len() == 0 && self.failure() is None,
                Err(e) => self.remaining().len() == 0 && self.failure() is Some && *e.0
                    == ErrorImpl::Reader(reader_error_copy(self.failure()->Some_0)),
            },
    {
        let n = self.stack.len();
        if n > 0 {
            Ok(Some(&self.stack[n - 1]))
        } else {
            match &self.failure {
                Some(err) => Err(crate::error::reader(copy_reader_error(err))),
                None => Ok(None),
            }
        }
    }

    /// Consumes the next event.
    pub fn next(&mut self) -> (r: Result<Event, DecodeError>)
        ensures
            final(self).failure() == old(self).failure(),
            final(self).same_context(old(self)),
            final(self).remaining() == if old(self).remaining().len() > 0 {
                old(self).remaining().skip(1)
            } else {
                old(self).remaining()
            },
            match r {
                Ok(event) => peek_of(old(self).remaining(), old(self).failure()) == Ok::<
                    Event,
                    Failure,
                >(event),
                Err(e) => peek_of(old(self).remaining(), old(self).failure()) == Err::<
                    Event,
                    Failure,
                >(e.failure()),
            },
    {
        match self.stack.pop() {
            Some(event) => {
                assert(final(self).remaining() =~= old(self).remaining().skip(1));
                Ok(event)
            },
            None => {
                assert(final(self).remaining() =~= old(self).remaining());
                match &self.failure {
                    Some(err) => Err(crate::error::reader(copy_reader_error(err))),
                    None => Ok(Event::EndDocument),
                }
            },
        }
    }

    /// Consumes a start tag and hands out its name and attributes. Any
    /// other event is an error, and stays.
    pub fn start_tag(&mut self) -> (r: Result<(String, Vec<Attribute>), DecodeError>)
        ensures
            final(self).failure() == old(self).failure(),
            final(self).same_context(old(self)),
            match r {
                Ok((name, attributes)) => old(self).remaining().len() > 0 && old(self).remaining()[0] == (Event::StartElement { name, attributes }) && final(self).remaining() == old(self).remaining().skip(1),
                Err(e) => !(old(self).remaining().len() > 0 && old(self).remaining()[0] is StartElement)
                    && final(self).remaining() == old(self).remaining() && e.failure() == mismatch_failure("expected start tag"@, old(self).remaining(), old(self).failure()),
            },
    {
        let n = self.stack.len();
        let starts = n > 0 && match &self.stack[n - 1] {
            Event::StartElement { .. } => true,
            _ => false,
        };
        if !starts {
            return Err(self.mismatch("expected start tag"));
        }
        match self.stack.pop() {
            Some(Event::StartElement { name, attributes }) => {
                assert(final(self).remaining() =~= old(self).remaining().skip(1));
                Ok((name, attributes))
            },
            _ => Err(with_message("expected a start tag".to_owned())),
        }
    }

    /// Consumes the end tag of that name. Any other event is an error,
    /// and stays.
    pub fn end_tag(&mut self, name: &String) -> (r: Result<(), DecodeError>)
        ensures
            final(self).failure() == old(self).failure(),
            final(self).same_context(old(self)),
            match r {
                Ok(_) => old(self).remaining().len() > 0 && is_end_of(
                    old(self).remaining()[0],
                    name@,
                ) && final(self).remaining() == old(self).remaining().skip(1),
                Err(e) => !(old(self).remaining().len() > 0 && is_end_of(
                    old(self).remaining()[0],
                    name@,
                )) && final(self).remaining() == old(self).remaining() && e.failure() == mismatch_failure("expected matching end tag"@, old(self).remaining(), old(self).failure()),
            },
    {
        let n = self.stack.len();
        let ends = n > 0 && match &self.stack[n - 1] {
            Event::EndElement { name: found } => *found == *name,
            _ => false,
        };
        if !ends {
            return Err(self.mismatch("expected matching end tag"));
        }
        self.stack.pop();
        assert(final(self).remaining() =~= old(self).remaining().skip(1));
        Ok(())
    }

    /// Consumes a run of character data and hands it out. Any other event
    /// is an error, and stays.
    pub fn characters(&mut self) -> (r: Result<String, DecodeError>)
        ensures
            final(self).failure() == old(self).failure(),
            final(self).same_context(old(self)),
            match r {
                Ok(text) => old(self).remaining().len() > 0 && old(self).remaining()[0]
                    == Event::Characters(text) && final(self).remaining() == old(self).remaining().skip(1),
                Err(e) => !(old(self).remaining().len() > 0 && old(self).remaining()[0] is Characters)
                    && final(self).remaining() == old(self).remaining() && e.failure() == mismatch_failure("expected characters"@, old(self).remaining(), old(self).failure()),
            },
    {
        let n = self.stack.len();
        let is_text = n > 0 && match &self.stack[n - 1] {
            Event::Characters(_) => true,
            _ => false,
        };
        if !is_text {
            return Err(self.mismatch("expected characters"));
        }
        match self.stack.pop() {
            Some(Event::Characters(text)) => {
                assert(final(self).remaining() =~= old(self).remaining().skip(1));
                Ok(text)
            },
            _ => Err(with_message("expected character data".to_owned())),
        }
    }

    /// Consumes the end tag of that name if it comes next, and nothing
    /// otherwise: an element that was closed already is not closed twice.
    pub fn reconcile_end_tag(&mut self, name: &String)
        ensures
            final(self).failure() == old(self).failure(),
            final(self).same_context(old(self)),
            final(self).remaining() == close(old(self).remaining(), name@),
            !(old(self).remaining().len() > 0 && is_end_of(old(self).remaining()[0], name@))
                ==> final(self).remaining() == old(self).remaining(),
    {
        let n = self.stack.len();
        let ends = n > 0 && match &self.stack[n - 1] {
            Event::EndElement { name: found } => *found == *name,
            _ => false,
        };
        if ends {
            self.stack.pop();
            assert(final(self).remaining() =~= old(self).remaining().skip(1));
        }
    }
}

} // verus!
