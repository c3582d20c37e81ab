//! Discovery of the keys and values of one open element.

use vstd::prelude::*;
use vstd::string::*;
use crate::de::plain::{agrees, interpret, plain_value};
use crate::de::value::{optional_depth, value_at};
use crate::de::{close, expected_found, peek_of, Deserializer};
use crate::error::{with_message, DecodeError, Failure};
use crate::event::{attribute_views, Attribute, Event};
use crate::shape::{Shape, Value};

verus! {

/// The key under which an attribute of that name is discovered.
pub open spec fn attribute_key(name: Seq<char>) -> Seq<char> {
    seq!['@'] + name
}

/// The description of the error for an event that cannot be a key.
pub open spec fn unexpected_key(found: Event) -> Seq<char> {
    "expected map key"@ + ", found "@ + found.kind_name()
}

/// The key under which an element's own text is discovered.
pub open spec fn body_key() -> Seq<char> {
    seq!['.']
}

/// What decides the next key besides the cursor: the attributes whose
/// keys were not yet handed out, and whether text can no longer be a key.
pub struct KeyState {
    pub attrs: Seq<(Seq<char>, Seq<char>)>,
    pub closed: bool,
}

/// The key that is handed out in a state when the cursor shows `next`;
/// `None` where the element has no more keys or the event is an error.
pub open spec fn step_key(state: KeyState, next: Result<Event, Failure>) -> Option<Seq<char>> {
    if state.attrs.len() > 0 {
        Some(attribute_key(state.attrs[0].0))
    } else {
        match next {
            Ok(Event::Characters(_)) => if state.closed {
                None
            } else {
                Some(body_key())
            },
            Ok(Event::StartElement { name, .. }) => Some(name@),
            _ => None,
        }
    }
}

/// The state after a key was handed out in a state when the cursor
/// showed `next`.
pub open spec fn step_state(state: KeyState, next: Result<Event, Failure>) -> KeyState {
    if state.attrs.len() > 0 {
        KeyState { attrs: state.attrs.skip(1), closed: state.closed }
    } else {
        KeyState { attrs: state.attrs, closed: true }
    }
}

/// The keys and values of one open element: first its attributes, then
/// its text and its child elements as the cursor meets them.
///
/// A key and its value come in pairs. Between `next_key` and `next_value`
/// the value waits here: as text, or as a child element that is open.
pub struct MapAccess {
    /// The attributes whose keys were not yet handed out.
    pub attributes: Vec<Attribute>,
    /// The text that waits to be read as a value.
    pub value: Option<String>,
    /// The name of the child element that waits to be read as a value.
    pub end_tag: Option<String>,
    /// Whether the element's text can no longer be a key: its key was
    /// handed out, or a child element came first.
    pub body_closed: bool,
}

impl MapAccess {
    /// What decides the next key besides the cursor.
    pub open spec fn state(&self) -> KeyState {
        KeyState { attrs: attribute_views(self.attributes@), closed: self.body_closed }
    }

    /// Whether a key was handed out whose value was not yet asked for.
    pub open spec fn awaiting_value(&self) -> bool {
        self.value is Some || self.end_tag is Some
    }

    /// The discovery for an element with these attributes, whose start tag
    /// the cursor has consumed.
    pub fn new(attributes: Vec<Attribute>) -> (map: MapAccess)
        ensures
            map.attributes == attributes,
            !map.awaiting_value(),
            !map.body_closed,
    {
        MapAccess { attributes, value: None, end_tag: None, body_closed: false }
    }

    /// Discovers the next key, or `None` once the element has no more.
    ///
    /// Attributes come first, in document order, each under `@` and its
    /// name, and leave the cursor where it is. After them the next event
    /// decides: a start tag gives the element's name, an end tag or the
    /// document's end no key. Text gives the key `.`, but once only and
    /// only before the first child element: text after that is an error,
    /// as is any other event. The event of such an error is consumed, and
    /// the error says which kind of event it was.
    pub fn next_key(&mut self, de: &mut Deserializer) -> (r: Result<Option<String>, DecodeError>)
        requires
            !old(self).awaiting_value(),
        ensures
            final(de).failure() == old(de).failure(),
            final(de).remaining().len() <= old(de).remaining().len(),
            r matches Ok(Some(_)) ==> final(self).awaiting_value(),
            !(r matches Ok(Some(_))) ==> final(self).value is None && final(self).end_tag is None,
            match r {
                Ok(Some(key)) => step_key(
                    old(self).state(),
                    peek_of(old(de).remaining(), old(de).failure()),
                ) == Some(key@) && final(self).state().closed == step_state(
                    old(self).state(),
                    peek_of(old(de).remaining(), old(de).failure()),
                ).closed && final(self).state().attrs =~= step_state(
                    old(self).state(),
                    peek_of(old(de).remaining(), old(de).failure()),
                ).attrs,
                _ => step_key(old(self).state(), peek_of(old(de).remaining(), old(de).failure()))
                    is None,
            },
            old(self).body_closed ==> final(self).body_closed,
            old(self).attributes@.len() > 0 ==> {
                &&& r matches Ok(Some(key))
                &&& key@ == attribute_key(old(self).attributes@[0].name@)
                &&& final(self).value matches Some(v)
                &&& v@ == old(self).attributes@[0].value@
                &&& final(self).end_tag is None
                &&& final(self).attributes@ == old(self).attributes@.skip(1)
                &&& final(self).body_closed == old(self).body_closed
                &&& final(de).same_place(old(de))
                &&& final(de).same_context(old(de))
            },
            old(self).attributes@.len() == 0 ==> final(self).attributes@.len() == 0 && match peek_of(
                old(de).remaining(),
                old(de).failure(),
            ) {
                Err(k) => r matches Err(e) && e.failure() == k,
                Ok(Event::EndElement { .. }) | Ok(Event::EndDocument) => {
                    &&& r matches Ok(None)
                    &&& final(self).body_closed == old(self).body_closed
                    &&& final(de).same_place(old(de))
                    &&& final(de).same_context(old(de))
                },
                Ok(Event::Characters(text)) => if old(self).body_closed {
                    &&& r matches Err(e)
                    &&& e.failure() == Failure::Structure(unexpected_key(Event::Characters(text)))
                    &&& final(de).remaining() == old(de).remaining().skip(1)
                    &&& final(de).same_context(old(de))
                } else {
                    &&& r matches Ok(Some(key))
                    &&& key@ == body_key()
                    &&& final(self).value matches Some(v)
                    &&& v@ == text@
                    &&& final(self).end_tag is None
                    &&& final(self).body_closed
                    &&& final(de).remaining() == old(de).remaining().skip(1)
                    &&& final(de).same_context(old(de))
                },
                Ok(Event::StartElement { name, attributes }) => {
                    &&& r matches Ok(Some(key))
                    &&& key@ == name@
                    &&& final(self).value is None
                    &&& final(self).end_tag matches Some(tag)
                    &&& tag@ == name@
                    &&& final(self).body_closed
                    &&& final(de).remaining() == old(de).remaining().skip(1)
                    &&& final(de).context_name() == Some(name@)
                    &&& final(de).pending_attributes() == attribute_views(attributes@)
                },
                Ok(other) => {
                    &&& r matches Err(e)
                    &&& e.failure() == Failure::Structure(unexpected_key(other))
                    &&& final(self).body_closed == old(self).body_closed
                    &&& final(de).remaining() == old(de).remaining().skip(1)
                    &&& final(de).same_context(old(de))
                },
            },
    {
        if self.attributes.len() > 0 {
            let attribute = self.attributes.remove(0);
            assert(self.attributes@ =~= old(self).attributes@.skip(1));
            let mut key = "@".to_owned();
            key.append(attribute.name.as_str());
            proof {
                reveal_strlit("@");
                assert(key@ =~= attribute_key(attribute.name@));
            }
            self.value = Some(attribute.value);
            return Ok(Some(key));
        }
        let found: u8 = match de.peek() {
            Err(e) => {
                return Err(e);
            },
            Ok(None) => 0,
            Ok(Some(event)) => match event {
                Event::EndElement { .. } => 0,
                Event::EndDocument => 0,
                Event::Characters(_) => if self.body_closed {
                    3
                } else {
                    1
                },
                Event::StartElement { .. } => 2,
                _ => 3,
            },
        };
        if found == 0 {
            Ok(None)
        } else if found == 1 {
            match de.characters() {
                Ok(body) => {
                    self.value = Some(body);
                    self.body_closed = true;
                    let key = ".".to_owned();
                    proof {
                        reveal_strlit(".");
                        assert(key@ =~= body_key());
                    }
                    Ok(Some(key))
                },
                Err(e) => Err(e),
            }
        } else if found == 2 {
            match de.start_tag() {
                Ok((tag_name, attributes)) => {
                    de.open_element(tag_name.clone(), attributes);
                    self.end_tag = Some(tag_name.clone());
                    self.body_closed = true;
                    Ok(Some(tag_name))
                },
                Err(e) => Err(e),
            }
        } else {
            match de.next() {
                Ok(event) => Err(with_message(expected_found("expected map key", &event))),
                Err(e) => Err(e),
            }
        }
    }

    /// Reads the value of the key that was discovered last, as a value of
    /// the given shape.
    ///
    /// Text that waits is read as it stands and the cursor stays. A child
    /// element is read from the cursor; after it, its end tag is consumed
    /// if it comes next, and nothing otherwise.
    pub fn next_value(&mut self, de: &mut Deserializer, shape: &Shape) -> (r: Result<
        Value,
        DecodeError,
    >)
        requires
            old(self).awaiting_value(),
        ensures
            final(de).failure() == old(de).failure(),
            final(de).remaining().len() <= old(de).remaining().len(),
            final(self).attributes == old(self).attributes,
            final(self).body_closed == old(self).body_closed,
            final(self).state() == old(self).state(),
            final(self).value is None,
            r is Ok && !(old(self).value is Some && old(self).end_tag is Some)
                ==> !final(self).awaiting_value(),
            match old(self).value {
                Some(text) => agrees(r, plain_value(text@, *shape)) && final(de).same_place(
                    old(de),
                ) && final(de).same_context(old(de)) && final(self).end_tag == old(self).end_tag,
                None => match value_at(
                    old(de).remaining(),
                    old(de).failure(),
                    old(de).pending_attributes(),
                    *shape,
                ) {
                    Ok((v, rest)) => {
                        &&& r matches Ok(x)
                        &&& x@ == v
                        &&& rest.len() <= old(de).remaining().len()
                        &&& old(self).end_tag matches Some(tag)
                        &&& final(de).remaining() == close(rest, tag@)
                    },
                    Err(k) => r matches Err(e) && e.failure() == k,
                },
            },
        decreases
                (if old(self).value is Some {
                    0
                } else {
                    old(de).remaining().len() + 1
                }),
                2 + optional_depth(*shape),
                0nat,
    {
        match self.take_text() {
            Some(text) => interpret(text, shape),
            None => {
                let v = match de.deserialize(shape) {
                    Ok(v) => v,
                    Err(e) => {
                        return Err(e);
                    },
                };
                self.close_child(de);
                Ok(v)
            },
        }
    }

    /// Hands out the text that waits to be read as a value, if text waits.
    pub fn take_text(&mut self) -> (text: Option<String>)
        ensures
            text == old(self).value,
            final(self).value is None,
            final(self).end_tag == old(self).end_tag,
            final(self).attributes == old(self).attributes,
            final(self).body_closed == old(self).body_closed,
    {
        self.value.take()
    }

    /// Ends the pair of a child element whose value was read: its end tag
    /// is consumed if it comes next, and nothing otherwise, so that an
    /// element that was closed already is not closed twice.
    pub fn close_child(&mut self, de: &mut Deserializer)
        requires
            old(self).end_tag is Some,
        ensures
            final(self).end_tag is None,
            final(self).value == old(self).value,
            final(self).attributes == old(self).attributes,
            final(self).body_closed == old(self).body_closed,
            final(de).failure() == old(de).failure(),
            final(de).same_context(old(de)),
            final(de).remaining() == close(old(de).remaining(), old(self).end_tag->Some_0@),
    {
        match self.end_tag.take() {
            Some(end_tag) => {
                de.reconcile_end_tag(&end_tag);
            },
            None => {},
        }
    }
}

} // verus!
