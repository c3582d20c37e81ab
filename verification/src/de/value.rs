//! Reading a value of a given shape from the events.

use vstd::prelude::*;
use crate::de::map::{attribute_key, body_key, unexpected_key, MapAccess};
use crate::de::plain::{interpret, interpret_tuple, plain_value, tuple_value};
use crate::de::{close, peek_of, Deserializer};
use crate::error::{with_message, DecodeError, Failure};
use crate::event::{attribute_views, Attribute, Event};
use crate::shape::{
    entry_views, field_index, find_field, find_variant, lemma_view_of_items, variant_index, Field,
    Shape, Value, ValueView, VariantKind,
};

verus! {

/// What names the variant of a tagged union.
#[derive(Debug)]
pub enum VariantTag {
    /// The text of the open element, for a unit variant.
    Text(String),
    /// The name of the child element, which holds the variant's payload.
    Element(String),
}

/// How many optional wrappers stand around the shape.
pub open spec fn optional_depth(shape: Shape) -> nat
    decreases shape,
{
    match shape {
        Shape::Optional(inner) => 1 + optional_depth(*inner),
        _ => 0,
    }
}

/// One more than the optional wrappers around a newtype variant's payload.
pub open spec fn variant_depth(kind: VariantKind) -> nat {
    match kind {
        VariantKind::Newtype(shape) => 2 + optional_depth(shape),
        _ => 1,
    }
}

/// The value of the given shape that the open element holds, and the
/// events that remain after it; or the kind of error that reading it gives.
///
/// `rest` starts behind the element's start tag and `attrs` are the
/// attributes of that tag. The element's own end tag is not consumed.
pub open spec fn value_at(
    rest: Seq<Event>,
    failure: Option<xml::reader::Error>,
    attrs: Seq<(Seq<char>, Seq<char>)>,
    shape: Shape,
) -> Result<(ValueView, Seq<Event>), Failure>
    decreases rest.len(), 1 + optional_depth(shape), 0nat,
{
    match shape {
        Shape::Record(fields) => match entries_at(rest, failure, attrs, false, fields@, Seq::empty()) {
            Ok((entries, after)) => Ok((ValueView::Record(entries), after)),
            Err(k) => Err(k),
        },
        Shape::Optional(inner) => match value_at(rest, failure, attrs, *inner) {
            Ok((v, after)) => Ok((ValueView::Optional(Some(Box::new(v))), after)),
            Err(k) => Err(k),
        },
        Shape::Union(variants) => match peek_of(rest, failure) {
            Err(k) => Err(k),
            Ok(Event::Characters(text)) => match plain_value(text@, shape) {
                Ok(v) => Ok((v, rest.skip(1))),
                Err(k) => Err(k),
            },
            Ok(Event::StartElement { name, attributes }) => match variant_index(
                variants@,
                name@,
            ) {
                Some(i) => if rest.len() > 0 {
                    match variant_at(
                        rest.skip(1),
                        failure,
                        attribute_views(attributes@),
                        variants@[i].kind,
                    ) {
                        Ok((payload, after)) => Ok(
                            (ValueView::Variant(name@, Box::new(payload)), close(after, name@)),
                        ),
                        Err(k) => Err(k),
                    }
                } else {
                    Err(Failure::Structure("unknown variant"@))
                },
                None => Err(Failure::Structure("unknown variant"@)),
            },
            Ok(_) => Err(Failure::Structure("expected a variant"@)),
        },
        _ => match peek_of(rest, failure) {
            Err(k) => Err(k),
            Ok(Event::Characters(text)) => match plain_value(text@, shape) {
                Ok(v) => Ok((v, rest.skip(1))),
                Err(k) => Err(k),
            },
            Ok(_) => match plain_value(Seq::empty(), shape) {
                Ok(v) => Ok((v, rest)),
                Err(k) => Err(k),
            },
        },
    }
}

/// What the element of a variant holds, by the variant's kind: nothing,
/// one value, the tokens of one text, or the entries of a record.
pub open spec fn variant_at(
    rest: Seq<Event>,
    failure: Option<xml::reader::Error>,
    attrs: Seq<(Seq<char>, Seq<char>)>,
    kind: VariantKind,
) -> Result<(ValueView, Seq<Event>), Failure>
    decreases rest.len(), variant_depth(kind), 0nat,
{
    match kind {
        VariantKind::Unit => Ok((ValueView::Unit, rest)),
        VariantKind::Newtype(shape) => value_at(rest, failure, attrs, shape),
        VariantKind::Tuple(shapes) => match peek_of(rest, failure) {
            Err(k) => Err(k),
            Ok(Event::Characters(text)) => match tuple_value(text@, shapes@) {
                Ok(v) => Ok((v, rest.skip(1))),
                Err(k) => Err(k),
            },
            Ok(_) => Err(Failure::Structure("expected the values of the variant"@)),
        },
        VariantKind::Record(fields) => match entries_at(rest, failure, attrs, false, fields@, Seq::empty()) {
            Ok((entries, after)) => Ok((ValueView::Record(entries), after)),
            Err(k) => Err(k),
        },
    }
}

/// The entries of a record: the ones in `done`, then one for each
/// attribute in `attrs`, then one for the element's text, if it starts
/// with text, and one for each child element up to the end tag or the
/// document's end, which is not consumed. Each key must name a field,
/// whose shape its value is read as. `closed` says that text can no
/// longer be a key: text after the first key of the body is an error.
pub open spec fn entries_at(
    rest: Seq<Event>,
    failure: Option<xml::reader::Error>,
    attrs: Seq<(Seq<char>, Seq<char>)>,
    closed: bool,
    fields: Seq<Field>,
    done: Seq<(Seq<char>, ValueView)>,
) -> Result<(Seq<(Seq<char>, ValueView)>, Seq<Event>), Failure>
    decreases rest.len(), 0nat, attrs.len(),
{
    if attrs.len() > 0 {
        let key = attribute_key(attrs[0].0);
        match field_index(fields, key) {
            Some(i) => match plain_value(attrs[0].1, fields[i].shape) {
                Ok(v) => entries_at(rest, failure, attrs.skip(1), closed, fields, done.push((key, v))),
                Err(k) => Err(k),
            },
            None => Err(Failure::Structure("unknown field"@)),
        }
    } else {
        match peek_of(rest, failure) {
            Err(k) => Err(k),
            Ok(Event::EndElement { .. }) | Ok(Event::EndDocument) => Ok((done, rest)),
            Ok(Event::Characters(text)) => if closed {
                Err(Failure::Structure(unexpected_key(Event::Characters(text))))
            } else {
                match field_index(fields, body_key()) {
                    Some(i) => match plain_value(text@, fields[i].shape) {
                        Ok(v) => entries_at(
                            rest.skip(1),
                            failure,
                            attrs,
                            true,
                            fields,
                            done.push((body_key(), v)),
                        ),
                        Err(k) => Err(k),
                    },
                    None => Err(Failure::Structure("unknown field"@)),
                }
            },
            Ok(Event::StartElement { name, attributes }) => match field_index(fields, name@) {
                Some(i) => if rest.len() > 0 {
                    match value_at(
                        rest.skip(1),
                        failure,
                        attribute_views(attributes@),
                        fields[i].shape,
                    ) {
                        Ok((v, after)) => if after.len() < rest.len() {
                            entries_at(
                                close(after, name@),
                                failure,
                                attrs,
                                true,
                                fields,
                                done.push((name@, v)),
                            )
                        } else {
                            Err(Failure::Structure("unknown field"@))
                        },
                        Err(k) => Err(k),
                    }
                } else {
                    Err(Failure::Structure("unknown field"@))
                },
                None => Err(Failure::Structure("unknown field"@)),
            },
            Ok(other) => Err(Failure::Structure(unexpected_key(other))),
        }
    }
}

impl Deserializer {
    /// Reads the open element as a value of the given shape.
    ///
    /// The cursor stands behind the element's start tag and is left before
    /// its end tag. A record takes the element's attributes and discovers
    /// its keys; a tagged union is named by the element's text or by its
    /// one child element; an optional value is present; a scalar is read
    /// from the element's text, or from the empty text where it has none.
    pub fn deserialize(&mut self, shape: &Shape) -> (r: Result<Value, DecodeError>)
        ensures
            final(self).failure() == old(self).failure(),
            final(self).remaining().len() <= old(self).remaining().len(),
            match value_at(
                old(self).remaining(),
                old(self).failure(),
                old(self).pending_attributes(),
                *shape,
            ) {
                Ok((v, rest)) => r matches Ok(x) && x@ == v && final(self).remaining() == rest,
                Err(k) => r matches Err(e) && e.failure() == k,
            },
        decreases old(self).remaining().len() + 1, 1 + optional_depth(*shape), 0nat,
    {
        match shape {
            Shape::Record(fields) => {
                let attributes = self.take_attributes();
                self.deserialize_record(attributes, fields)
            },
            Shape::Optional(inner) => match self.deserialize(inner) {
                Ok(v) => Ok(Value::Optional(Some(Box::new(v)))),
                Err(e) => Err(e),
            },
            Shape::Union(variants) => {
                let name = match self.variant_tag() {
                    Err(e) => {
                        return Err(e);
                    },
                    Ok(VariantTag::Text(text)) => {
                        return interpret(text, shape);
                    },
                    Ok(VariantTag::Element(name)) => name,
                };
                let attributes = self.take_attributes();
                let i = match find_variant(variants, &name) {
                    Some(i) => i,
                    None => {
                        return Err(with_message("unknown variant".to_owned()));
                    },
                };
                let payload = match self.deserialize_variant(
                    name.clone(),
                    attributes,
                    &variants[i].kind,
                ) {
                    Ok(v) => v,
                    Err(e) => {
                        return Err(e);
                    },
                };
                self.reconcile_end_tag(&name);
                Ok(Value::Variant(name, Box::new(payload)))
            },
            _ => {
                let has_text = match self.peek() {
                    Err(e) => {
                        return Err(e);
                    },
                    Ok(Some(Event::Characters(_))) => true,
                    Ok(_) => false,
                };
                if has_text {
                    match self.characters() {
                        Ok(text) => interpret(text, shape),
                        Err(e) => Err(e),
                    }
                } else {
                    let text = String::new();
                    assert(text@ =~= Seq::empty());
                    interpret(text, shape)
                }
            },
        }
    }

    /// Consumes what names the variant of a tagged union: the open
    /// element's text, or the start tag of its child element, which then
    /// is the open element. Any other event is an error, and stays.
    pub fn variant_tag(&mut self) -> (r: Result<VariantTag, DecodeError>)
        ensures
            final(self).failure() == old(self).failure(),
            r is Err ==> final(self).remaining() == old(self).remaining(),
            match peek_of(old(self).remaining(), old(self).failure()) {
                Err(k) => r matches Err(e) && e.failure() == k,
                Ok(Event::Characters(text)) => {
                    &&& r matches Ok(VariantTag::Text(t))
                    &&& t@ == text@
                    &&& final(self).remaining() == old(self).remaining().skip(1)
                },
                Ok(Event::StartElement { name, attributes }) => {
                    &&& r matches Ok(VariantTag::Element(n))
                    &&& n@ == name@
                    &&& final(self).remaining() == old(self).remaining().skip(1)
                    &&& final(self).context_name() == Some(name@)
                    &&& final(self).pending_attributes() == attribute_views(attributes@)
                },
                Ok(_) => {
                    &&& r matches Err(e)
                    &&& e.failure() == Failure::Structure("expected a variant"@)
                    &&& final(self).remaining() == old(self).remaining()
                },
            },
    {
        let found: u8 = match self.peek() {
            Err(e) => {
                return Err(e);
            },
            Ok(None) => 0,
            Ok(Some(event)) => match event {
                Event::Characters(_) => 1,
                Event::StartElement { .. } => 2,
                _ => 0,
            },
        };
        if found == 1 {
            match self.characters() {
                Ok(text) => Ok(VariantTag::Text(text)),
                Err(e) => Err(e),
            }
        } else if found == 2 {
            match self.start_tag() {
                Ok((name, attributes)) => {
                    self.open_element(name.clone(), attributes);
                    Ok(VariantTag::Element(name))
                },
                Err(e) => Err(e),
            }
        } else {
            Err(with_message("expected a variant".to_owned()))
        }
    }

    /// Reads what the element of a variant holds. `name` and `attributes`
    /// are those of its start tag, which the cursor has consumed.
    pub fn deserialize_variant(
        &mut self,
        name: String,
        attributes: Vec<Attribute>,
        kind: &VariantKind,
    ) -> (r: Result<Value, DecodeError>)
        ensures
            final(self).failure() == old(self).failure(),
            final(self).remaining().len() <= old(self).remaining().len(),
            match variant_at(
                old(self).remaining(),
                old(self).failure(),
                attribute_views(attributes@),
                *kind,
            ) {
                Ok((v, rest)) => r matches Ok(x) && x@ == v && final(self).remaining() == rest,
                Err(k) => r matches Err(e) && e.failure() == k,
            },
        decreases old(self).remaining().len() + 1, variant_depth(*kind), 0nat,
    {
        match kind {
            VariantKind::Unit => {
                let v = Value::Unit;
                assert(v@ == ValueView::Unit);
                Ok(v)
            },
            VariantKind::Newtype(shape) => {
                self.open_element(name, attributes);
                self.deserialize(shape)
            },
            VariantKind::Tuple(shapes) => {
                let has_text = match self.peek() {
                    Err(e) => {
                        return Err(e);
                    },
                    Ok(Some(Event::Characters(_))) => true,
                    Ok(_) => false,
                };
                if has_text {
                    match self.characters() {
                        Ok(text) => interpret_tuple(text, shapes),
                        Err(e) => Err(e),
                    }
                } else {
                    Err(with_message("expected the values of the variant".to_owned()))
                }
            },
            VariantKind::Record(fields) => self.deserialize_record(attributes, fields),
        }
    }

    /// Reads the open element as a record with the given fields: every
    /// key that a `MapAccess` discovers, in order, with its value. A key
    /// that names no field is an error.
    pub fn deserialize_record(&mut self, attributes: Vec<Attribute>, fields: &Vec<Field>) -> (r:
        Result<Value, DecodeError>)
        ensures
            final(self).failure() == old(self).failure(),
            final(self).remaining().len() <= old(self).remaining().len(),
            match entries_at(
                old(self).remaining(),
                old(self).failure(),
                attribute_views(attributes@),
                false,
                fields@,
                Seq::empty(),
            ) {
                Ok((entries, rest)) => r matches Ok(x) && x@ == ValueView::Record(entries) && final(self).remaining() == rest,
                Err(k) => r matches Err(e) && e.failure() == k,
            },
        decreases old(self).remaining().len() + 1, 0nat, 1nat,
    {
        let ghost goal = entries_at(
            old(self).remaining(),
            old(self).failure(),
            attribute_views(attributes@),
            false,
            fields@,
            Seq::empty(),
        );
        let mut map = MapAccess::new(attributes);
        let mut entries: Vec<(String, Value)> = Vec::new();
        assert(entry_views(entries@) =~= Seq::empty());
        loop
            invariant
                !map.awaiting_value(),
                goal == entries_at(
                    old(self).remaining(),
                    old(self).failure(),
                    attribute_views(attributes@),
                    false,
                    fields@,
                    Seq::empty(),
                ),
                self.failure() == old(self).failure(),
                self.remaining().len() <= old(self).remaining().len(),
                goal == entries_at(
                    self.remaining(),
                    self.failure(),
                    attribute_views(map.attributes@),
                    map.body_closed,
                    fields@,
                    entry_views(entries@),
                ),
            decreases self.remaining().len(), map.attributes@.len(),
        {
            let ghost rest = self.remaining();
            let ghost attrs = attribute_views(map.attributes@);
            let ghost done = entry_views(entries@);
            let ghost first = map.attributes@;
            let key = match map.next_key(self) {
                Err(e) => {
                    return Err(e);
                },
                Ok(None) => {
                    let r = Value::Record(entries);
                    proof {
                        lemma_view_of_items(r);
                    }
                    return Ok(r);
                },
                Ok(Some(key)) => key,
            };
            proof {
                if first.len() > 0 {
                    assert(attribute_views(map.attributes@) =~= attrs.skip(1));
                } else {
                    assert(attribute_views(map.attributes@) =~= attrs);
                }
            }
            let i = match find_field(fields, &key) {
                Some(i) => i,
                None => {
                    return Err(with_message("unknown field".to_owned()));
                },
            };
            let value = match map.next_value(self, &fields[i].shape) {
                Ok(v) => v,
                Err(e) => {
                    return Err(e);
                },
            };
            let ghost entry = (key@, value@);
            entries.push((key, value));
            assert(entry_views(entries@) =~= done.push(entry));
        }
    }
}

} // verus!
