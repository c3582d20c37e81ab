//! Reading a whole document.

use vstd::prelude::*;
use crate::de::plain::agrees;
use crate::de::value::value_at;
use crate::de::{mismatch_failure, peek_of, Deserializer};
use crate::error::{DecodeError, Failure};
use crate::event::{attribute_views, Event};
use crate::shape::{Shape, Value, ValueView};
use crate::tokens::{token_events, token_failure, tokenize};

verus! {

/// Whether an event may stand before the root element.
pub open spec fn is_prolog(event: Event) -> bool {
    event is StartDocument || event is ProcessingInstruction || event is Comment
        || event is Whitespace
}

/// The events from the first one on that may not stand before the root
/// element.
pub open spec fn skip_prolog(rest: Seq<Event>) -> Seq<Event>
    decreases rest.len(),
{
    if rest.len() > 0 && is_prolog(rest[0]) {
        skip_prolog(rest.skip(1))
    } else {
        rest
    }
}

/// The value of the given shape that the document's root element holds,
/// or the kind of error that reading it gives.
pub open spec fn document_value(rest: Seq<Event>, failure: Option<xml::reader::Error>, shape: Shape) -> Result<
    ValueView,
    Failure,
> {
    let body = skip_prolog(rest);
    match peek_of(body, failure) {
        Err(k) => Err(k),
        Ok(Event::StartElement { name, attributes }) => match value_at(
            body.skip(1),
            failure,
            attribute_views(attributes@),
            shape,
        ) {
            Ok((v, _)) => Ok(v),
            Err(k) => Err(k),
        },
        Ok(_) => Err(mismatch_failure("expected start tag"@, body, failure)),
    }
}

impl Deserializer {
    /// Consumes what may stand before the root element and the root's
    /// start tag, makes the root the open element, and hands out its name.
    pub fn open_root(&mut self) -> (r: Result<String, DecodeError>)
        ensures
            final(self).failure() == old(self).failure(),
            match peek_of(skip_prolog(old(self).remaining()), old(self).failure()) {
                Err(k) => r matches Err(e) && e.failure() == k,
                Ok(Event::StartElement { name, attributes }) => {
                    &&& r matches Ok(root)
                    &&& root@ == name@
                    &&& final(self).remaining() == skip_prolog(old(self).remaining()).skip(1)
                    &&& final(self).context_name() == Some(name@)
                    &&& final(self).pending_attributes() == attribute_views(attributes@)
                },
                Ok(_) => r matches Err(e) && e.failure() == mismatch_failure(
                    "expected start tag"@,
                    skip_prolog(old(self).remaining()),
                    old(self).failure(),
                ),
            },
    {
        loop
            invariant
                self.failure() == old(self).failure(),
                skip_prolog(self.remaining()) == skip_prolog(old(self).remaining()),
            ensures
                self.remaining().len() == 0 || !is_prolog(self.remaining()[0]),
            decreases self.remaining().len(),
        {
            let prolog = match self.peek() {
                Ok(Some(event)) => match event {
                    Event::StartDocument => true,
                    Event::ProcessingInstruction => true,
                    Event::Comment => true,
                    Event::Whitespace => true,
                    _ => false,
                },
                _ => false,
            };
            if !prolog {
                break ;
            }
            match self.next() {
                Ok(_) => {},
                Err(e) => {
                    return Err(e);
                },
            }
        }
        match self.start_tag() {
            Ok((name, attributes)) => {
                self.open_element(name.clone(), attributes);
                Ok(name)
            },
            Err(e) => Err(e),
        }
    }

    /// Reads the root element, which comes next but for what may stand
    /// before it, as a value of the given shape.
    pub fn document(&mut self, shape: &Shape) -> (r: Result<Value, DecodeError>)
        ensures
            final(self).failure() == old(self).failure(),
            agrees(r, document_value(old(self).remaining(), old(self).failure(), *shape)),
    {
        let name = match self.open_root() {
            Ok(name) => name,
            Err(e) => {
                return Err(e);
            },
        };
        let value = match self.deserialize(shape) {
            Ok(v) => v,
            Err(e) => {
                return Err(e);
            },
        };
        self.reconcile_end_tag(&name);
        Ok(value)
    }
}

/// Reads the document that these events make up as a value of the given
/// shape.
pub fn from_events(events: Vec<Event>, shape: &Shape) -> (r: Result<Value, DecodeError>)
    ensures
        agrees(r, document_value(events@, None, *shape)),
{
    let mut de = Deserializer::new(events);
    de.document(shape)
}

/// Reads markup text as a value of the given shape: the text is split
/// into events, and the document that they make up is read.
///
/// Malformed markup gives the tokenizer's error at the place where the
/// decode reaches it.
pub fn from_str(input: &str, shape: &Shape) -> (r: Result<Value, DecodeError>)
    ensures
        agrees(
            r,
            document_value(token_events(input@), token_failure(input@), *shape),
        ),
{
    let tokens = tokenize(input);
    let mut de = Deserializer::with_failure(tokens.events, tokens.failure);
    de.document(shape)
}

} // verus!
