//! What holds of the keys of every element.

use vstd::prelude::*;
use crate::de::map::{attribute_key, body_key, step_key, step_state, KeyState};
use crate::de::plain::plain_value;
use crate::de::value::{entries_at, value_at};
use crate::de::{close, peek_of};
use crate::error::Failure;
use crate::event::{attribute_views, Event};
use crate::shape::{field_index, Field, ValueView};

verus! {

/// The key of each entry.
pub open spec fn keys_of(entries: Seq<(Seq<char>, ValueView)>) -> Seq<Seq<char>> {
    Seq::new(entries.len(), |i: int| entries[i].0)
}

/// The key of each attribute.
pub open spec fn attribute_keys(attrs: Seq<(Seq<char>, Seq<char>)>) -> Seq<Seq<char>> {
    Seq::new(attrs.len(), |i: int| attribute_key(attrs[i].0))
}

/// The entries of an element's text and children, its attributes
/// aside. `closed` says that text can no longer be a key.
pub open spec fn body_entries(
    rest: Seq<Event>,
    failure: Option<xml::reader::Error>,
    closed: bool,
    fields: Seq<Field>,
) -> Result<(Seq<(Seq<char>, ValueView)>, Seq<Event>), Failure> {
    entries_at(rest, failure, Seq::empty(), closed, fields, Seq::empty())
}

/// The entries that were discovered before do not change the ones that
/// follow: they stand in front of them, and an error stays the error.
pub proof fn lemma_entries_follow_the_earlier_ones(
    rest: Seq<Event>,
    failure: Option<xml::reader::Error>,
    attrs: Seq<(Seq<char>, Seq<char>)>,
    closed: bool,
    fields: Seq<Field>,
    done: Seq<(Seq<char>, ValueView)>,
)
    ensures
        match entries_at(rest, failure, attrs, closed, fields, Seq::empty()) {
            Ok((entries, after)) => entries_at(rest, failure, attrs, closed, fields, done) == Ok::<
                (Seq<(Seq<char>, ValueView)>, Seq<Event>),
                Failure,
            >((done + entries, after)),
            Err(k) => entries_at(rest, failure, attrs, closed, fields, done) == Err::<
                (Seq<(Seq<char>, ValueView)>, Seq<Event>),
                Failure,
            >(k),
        },
    decreases rest.len(), attrs.len(), 0nat,
{
    let none = Seq::<(Seq<char>, ValueView)>::empty();
    if attrs.len() > 0 {
        let key = attribute_key(attrs[0].0);
        match field_index(fields, key) {
            Some(i) => match plain_value(attrs[0].1, fields[i].shape) {
                Ok(v) => {
                    lemma_step(rest, failure, attrs.skip(1), closed, fields, done, (key, v));
                },
                Err(_) => {},
            },
            None => {},
        }
    } else {
        match peek_of(rest, failure) {
            Ok(Event::EndElement { .. }) | Ok(Event::EndDocument) => {
                assert(done + none =~= done);
            },
            Ok(Event::Characters(text)) => if !closed {
                match field_index(fields, body_key()) {
                    Some(i) => match plain_value(text@, fields[i].shape) {
                        Ok(v) => {
                            lemma_step(
                                rest.skip(1),
                                failure,
                                attrs,
                                true,
                                fields,
                                done,
                                (body_key(), v),
                            );
                        },
                        Err(_) => {},
                    },
                    None => {},
                }
            },
            Ok(Event::StartElement { name, attributes }) => match field_index(fields, name@) {
                Some(i) => if rest.len() > 0 {
                    match value_at(
                        rest.skip(1),
                        failure,
                        attribute_views(attributes@),
                        fields[i].shape,
                    ) {
                        Ok((v, after)) => if after.len() < rest.len() {
                            lemma_step(close(after, name@), failure, attrs, true, fields, done, (name@, v));
                        },
                        Err(_) => {},
                    }
                },
                None => {},
            },
            _ => {},
        }
    }
}

/// One step of the lemma above: with `entry` discovered next, what
/// follows `done` and `entry` is what follows `entry` alone, after `done`.
proof fn lemma_step(
    rest: Seq<Event>,
    failure: Option<xml::reader::Error>,
    attrs: Seq<(Seq<char>, Seq<char>)>,
    closed: bool,
    fields: Seq<Field>,
    done: Seq<(Seq<char>, ValueView)>,
    entry: (Seq<char>, ValueView),
)
    ensures
        match entries_at(rest, failure, attrs, closed, fields, Seq::empty().push(entry)) {
            Ok((entries, after)) => entries_at(rest, failure, attrs, closed, fields, done.push(entry))
                == Ok::<(Seq<(Seq<char>, ValueView)>, Seq<Event>), Failure>(
                (done + entries, after),
            ),
            Err(k) => entries_at(rest, failure, attrs, closed, fields, done.push(entry)) == Err::<
                (Seq<(Seq<char>, ValueView)>, Seq<Event>),
                Failure,
            >(k),
        },
    decreases rest.len(), attrs.len(), 1nat,
{
    let one = Seq::<(Seq<char>, ValueView)>::empty().push(entry);
    lemma_entries_follow_the_earlier_ones(rest, failure, attrs, closed, fields, one);
    lemma_entries_follow_the_earlier_ones(rest, failure, attrs, closed, fields, done.push(entry));
    match entries_at(rest, failure, attrs, closed, fields, Seq::empty()) {
        Ok((entries, after)) => {
            assert(done.push(entry) + entries =~= done + (one + entries));
        },
        Err(_) => {},
    }
}

/// The keys of an element are `@` and the name of each attribute, in
/// document order, and after them the keys of its text and its child
/// elements, in document order.
pub proof fn law_attribute_keys_come_first(
    rest: Seq<Event>,
    failure: Option<xml::reader::Error>,
    attrs: Seq<(Seq<char>, Seq<char>)>,
    closed: bool,
    fields: Seq<Field>,
)
    requires
        entries_at(rest, failure, attrs, closed, fields, Seq::empty()) is Ok,
    ensures
        body_entries(rest, failure, closed, fields) is Ok,
        keys_of(entries_at(rest, failure, attrs, closed, fields, Seq::empty())->Ok_0.0) == attribute_keys(
            attrs,
        ) + keys_of(body_entries(rest, failure, closed, fields)->Ok_0.0),
        entries_at(rest, failure, attrs, closed, fields, Seq::empty())->Ok_0.1 == body_entries(
            rest,
            failure,
            closed,
            fields,
        )->Ok_0.1,
    decreases attrs.len(),
{
    let none = Seq::<(Seq<char>, ValueView)>::empty();
    if attrs.len() == 0 {
        assert(attrs =~= Seq::empty());
        let entries = body_entries(rest, failure, closed, fields)->Ok_0.0;
        assert(keys_of(entries) =~= attribute_keys(attrs) + keys_of(entries));
    } else {
        let key = attribute_key(attrs[0].0);
        let i = field_index(fields, key)->Some_0;
        let v = plain_value(attrs[0].1, fields[i].shape)->Ok_0;
        let one = none.push((key, v));
        lemma_entries_follow_the_earlier_ones(rest, failure, attrs.skip(1), closed, fields, one);
        law_attribute_keys_come_first(rest, failure, attrs.skip(1), closed, fields);
        let later = entries_at(rest, failure, attrs.skip(1), closed, fields, none)->Ok_0.0;
        let body = body_entries(rest, failure, closed, fields)->Ok_0.0;
        assert(keys_of(one + later) =~= seq![key] + keys_of(later));
        assert(seq![key] + (attribute_keys(attrs.skip(1)) + keys_of(body)) =~= attribute_keys(
            attrs,
        ) + keys_of(body));
    }
}

/// After the attributes, the next event decides the next key: text is
/// discovered under `.`, a child element under its name, and the entries
/// after it are those of what follows it, among which text is no key any
/// more: the key `.` comes at most once, and only before the first child
/// element. At an end tag or the document's end the element has no more
/// keys and the event stays.
pub proof fn law_body_keys_follow_the_events(
    rest: Seq<Event>,
    failure: Option<xml::reader::Error>,
    closed: bool,
    fields: Seq<Field>,
)
    requires
        body_entries(rest, failure, closed, fields) is Ok,
    ensures
        ({
            let (entries, after) = body_entries(rest, failure, closed, fields)->Ok_0;
            match peek_of(rest, failure) {
                Ok(Event::EndElement { .. }) | Ok(Event::EndDocument) => entries.len() == 0
                    && after == rest,
                Ok(Event::Characters(text)) => {
                    &&& !closed
                    &&& entries.len() > 0
                    &&& entries[0].0 == body_key()
                    &&& body_entries(rest.skip(1), failure, true, fields) matches Ok((later, end))
                    &&& entries.skip(1) == later
                    &&& after == end
                },
                Ok(Event::StartElement { name, attributes }) => {
                    &&& entries.len() > 0
                    &&& entries[0].0 == name@
                    &&& field_index(fields, name@) matches Some(i)
                    &&& value_at(rest.skip(1), failure, attribute_views(attributes@), fields[i].shape)
                        matches Ok((v, inner))
                    &&& entries[0].1 == v
                    &&& body_entries(close(inner, name@), failure, true, fields) matches Ok((later, end))
                    &&& entries.skip(1) == later
                    &&& after == end
                },
                _ => false,
            }
        }),
{
    let none = Seq::<(Seq<char>, ValueView)>::empty();
    match peek_of(rest, failure) {
        Ok(Event::Characters(text)) => {
            let i = field_index(fields, body_key())->Some_0;
            let v = plain_value(text@, fields[i].shape)->Ok_0;
            let one = none.push((body_key(), v));
            lemma_entries_follow_the_earlier_ones(rest.skip(1), failure, Seq::empty(), true, fields, one);
            let later = body_entries(rest.skip(1), failure, true, fields)->Ok_0.0;
            assert((one + later).skip(1) =~= later);
        },
        Ok(Event::StartElement { name, attributes }) => {
            let i = field_index(fields, name@)->Some_0;
            let (v, inner) = value_at(
                rest.skip(1),
                failure,
                attribute_views(attributes@),
                fields[i].shape,
            )->Ok_0;
            let one = none.push((name@, v));
            lemma_entries_follow_the_earlier_ones(
                close(inner, name@),
                failure,
                Seq::empty(),
                true,
                fields,
                one,
            );
            let later = body_entries(close(inner, name@), failure, true, fields)->Ok_0.0;
            assert((one + later).skip(1) =~= later);
        },
        _ => {},
    }
}

/// The state of the discovery at its `i`th call for a key, counted from
/// 0, where `nexts` holds what the cursor shows at each call.
pub open spec fn state_at(
    attrs: Seq<(Seq<char>, Seq<char>)>,
    nexts: Seq<Result<Event, Failure>>,
    i: nat,
) -> KeyState
    decreases i,
{
    if i == 0 {
        KeyState { attrs, closed: false }
    } else {
        step_state(state_at(attrs, nexts, (i - 1) as nat), nexts[i - 1])
    }
}

/// In every traversal of an element with the attributes `attrs`, whatever
/// the cursor shows at each call and whatever the values in between
/// consume: as long as every call gave a key, call `i` gives `@` and the
/// name of attribute `i`; the first call after the attributes gives `.`
/// for text or the name of a child element; every later call gives the
/// name of a child element, and no key for text.
pub proof fn law_keys_of_every_traversal(
    attrs: Seq<(Seq<char>, Seq<char>)>,
    nexts: Seq<Result<Event, Failure>>,
    i: nat,
)
    requires
        i < nexts.len(),
        forall|j: nat| j < i ==> step_key(#[trigger] state_at(attrs, nexts, j), nexts[j as int]) is Some,
    ensures
        state_at(attrs, nexts, i).attrs == (if i < attrs.len() {
            attrs.skip(i as int)
        } else {
            Seq::empty()
        }),
        state_at(attrs, nexts, i).closed == (i > attrs.len()),
        step_key(state_at(attrs, nexts, i), nexts[i as int]) == (if i < attrs.len() {
            Some(attribute_key(attrs[i as int].0))
        } else {
            match nexts[i as int] {
                Ok(Event::Characters(_)) => if i == attrs.len() {
                    Some(body_key())
                } else {
                    None
                },
                Ok(Event::StartElement { name, .. }) => Some(name@),
                _ => None,
            }
        }),
    decreases i,
{
    if i == 0 {
        assert(attrs.skip(0) =~= attrs);
        if attrs.len() == 0 {
            assert(attrs =~= Seq::empty());
        }
    } else {
        let before = (i - 1) as nat;
        law_keys_of_every_traversal(attrs, nexts, before);
        if before < attrs.len() {
            assert(attrs.skip(before as int).skip(1) =~= attrs.skip(i as int));
            if i >= attrs.len() {
                assert(attrs.skip(i as int) =~= Seq::empty());
            }
        }
    }
}

} // verus!
