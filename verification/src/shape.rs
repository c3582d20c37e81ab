//! What a value should look like, and what was found.

use vstd::prelude::*;

verus! {

/// The widths of integers.
#[derive(Debug, Clone, Copy, PartialEq, Eq, Structural)]
pub enum IntKind {
    I8,
    I16,
    I32,
    I64,
    U8,
    U16,
    U32,
    U64,
}

impl IntKind {
    pub open spec fn signed(self) -> bool {
        self == IntKind::I8 || self == IntKind::I16 || self == IntKind::I32 || self == IntKind::I64
    }

    pub open spec fn min(self) -> int {
        match self {
            IntKind::I8 => i8::MIN as int,
            IntKind::I16 => i16::MIN as int,
            IntKind::I32 => i32::MIN as int,
            IntKind::I64 => i64::MIN as int,
            _ => 0,
        }
    }

    pub open spec fn max(self) -> int {
        match self {
            IntKind::I8 => i8::MAX as int,
            IntKind::I16 => i16::MAX as int,
            IntKind::I32 => i32::MAX as int,
            IntKind::I64 => i64::MAX as int,
            IntKind::U8 => u8::MAX as int,
            IntKind::U16 => u16::MAX as int,
            IntKind::U32 => u32::MAX as int,
            IntKind::U64 => u64::MAX as int,
        }
    }
}

/// A named field of a record.
#[derive(Debug)]
pub struct Field {
    pub name: String,
    pub shape: Shape,
}

/// What a variant of a tagged union holds.
#[derive(Debug)]
pub enum VariantKind {
    Unit,
    Newtype(Shape),
    Tuple(Vec<Shape>),
    Record(Vec<Field>),
}

/// A named variant of a tagged union.
#[derive(Debug)]
pub struct Variant {
    pub name: String,
    pub kind: VariantKind,
}

/// The shape that a value is asked to have.
#[derive(Debug)]
pub enum Shape {
    Unit,
    Bool,
    Integer(IntKind),
    /// A floating-point number. Its text is handed over as it stands.
    Float,
    Char,
    Text,
    Bytes,
    Optional(Box<Shape>),
    Record(Vec<Field>),
    Union(Vec<Variant>),
}

/// A decoded value.
#[derive(Debug, PartialEq, Eq)]
pub enum Value {
    Unit,
    Bool(bool),
    Integer(IntKind, i128),
    Float(String),
    Char(char),
    Text(String),
    Bytes(Vec<u8>),
    Optional(Option<Box<Value>>),
    /// The keys that were discovered, in order, each with its value.
    Record(Vec<(String, Value)>),
    /// The positional payloads of a tuple variant.
    Tuple(Vec<Value>),
    /// The variant's name and what it holds (`Unit` for a unit variant).
    Variant(String, Box<Value>),
}

/// A decoded value as plain data.
pub enum ValueView {
    Unit,
    Bool(bool),
    Integer(IntKind, int),
    Float(Seq<char>),
    Char(char),
    Text(Seq<char>),
    Bytes(Seq<u8>),
    Optional(Option<Box<ValueView>>),
    Record(Seq<(Seq<char>, ValueView)>),
    Tuple(Seq<ValueView>),
    Variant(Seq<char>, Box<ValueView>),
}

impl Value {
    /// This value as plain data.
    pub open spec fn model(&self) -> ValueView
        decreases self,
    {
        match self {
            Value::Unit => ValueView::Unit,
            Value::Bool(b) => ValueView::Bool(*b),
            Value::Integer(kind, n) => ValueView::Integer(*kind, *n as int),
            Value::Float(text) => ValueView::Float(text@),
            Value::Char(c) => ValueView::Char(*c),
            Value::Text(text) => ValueView::Text(text@),
            Value::Bytes(bytes) => ValueView::Bytes(bytes@),
            Value::Optional(None) => ValueView::Optional(None),
            Value::Optional(Some(inner)) => ValueView::Optional(Some(Box::new(inner.model()))),
            Value::Record(entries) => ValueView::Record(
                Seq::new(
                    entries@.len(),
                    |i: int|
                        if 0 <= i < entries@.len() {
                            (entries@[i].0@, entries@[i].1.model())
                        } else {
                            (Seq::empty(), ValueView::Unit)
                        },
                ),
            ),
            Value::Tuple(items) => ValueView::Tuple(
                Seq::new(
                    items@.len(),
                    |i: int|
                        if 0 <= i < items@.len() {
                            items@[i].model()
                        } else {
                            ValueView::Unit
                        },
                ),
            ),
            Value::Variant(name, payload) => ValueView::Variant(name@, Box::new(payload.model())),
        }
    }
}

impl View for Value {
    type V = ValueView;

    open spec fn view(&self) -> ValueView {
        self.model()
    }
}

/// Each value as plain data.
pub open spec fn value_views(values: Seq<Value>) -> Seq<ValueView> {
    Seq::new(values.len(), |i: int| values[i]@)
}

/// Each key with its value as plain data.
pub open spec fn entry_views(entries: Seq<(String, Value)>) -> Seq<(Seq<char>, ValueView)> {
    Seq::new(entries.len(), |i: int| (entries[i].0@, entries[i].1@))
}

/// A record is its entries as plain data, and a tuple its items.
pub proof fn lemma_view_of_items(value: Value)
    ensures
        match value {
            Value::Record(entries) => value@ == ValueView::Record(entry_views(entries@)),
            Value::Tuple(items) => value@ == ValueView::Tuple(value_views(items@)),
            _ => true,
        },
{
    match value {
        Value::Record(entries) => {
            assert(value.model()->Record_0 =~= entry_views(entries@));
        },
        Value::Tuple(items) => {
            assert(value.model()->Tuple_0 =~= value_views(items@));
        },
        _ => {},
    }
}

/// The place of the first field of that name, if there is one.
pub open spec fn field_index(fields: Seq<Field>, name: Seq<char>) -> Option<int>
    decreases fields.len(),
{
    if fields.len() == 0 {
        None
    } else if fields[0].name@ == name {
        Some(0)
    } else {
        match field_index(fields.skip(1), name) {
            Some(i) => Some(i + 1),
            None => None,
        }
    }
}

/// The place of the first variant of that name, if there is one.
pub open spec fn variant_index(variants: Seq<Variant>, name: Seq<char>) -> Option<int>
    decreases variants.len(),
{
    if variants.len() == 0 {
        None
    } else if variants[0].name@ == name {
        Some(0)
    } else {
        match variant_index(variants.skip(1), name) {
            Some(i) => Some(i + 1),
            None => None,
        }
    }
}

/// The place of the first unit variant of that name, if there is one.
pub open spec fn unit_variant_index(variants: Seq<Variant>, name: Seq<char>) -> Option<int>
    decreases variants.len(),
{
    if variants.len() == 0 {
        None
    } else if variants[0].name@ == name && variants[0].kind is Unit {
        Some(0)
    } else {
        match unit_variant_index(variants.skip(1), name) {
            Some(i) => Some(i + 1),
            None => None,
        }
    }
}

/// Finds the first field of that name.
pub fn find_field(fields: &Vec<Field>, name: &String) -> (found: Option<usize>)
    ensures
        match found {
            Some(i) => field_index(fields@, name@) == Some(i as int) && i < fields.len(),
            None => field_index(fields@, name@) is None,
        },
{
    let mut i: usize = fields.len();
    let mut found: Option<usize> = None;
    while i > 0
        invariant
            i <= fields.len(),
            match found {
                Some(j) => field_index(fields@.skip(i as int), name@) == Some(j - i) && i <= j
                    < fields.len(),
                None => field_index(fields@.skip(i as int), name@) is None,
            },
        decreases i,
    {
        i -= 1;
        assert(fields@.skip(i as int).skip(1) =~= fields@.skip(i + 1));
        if fields[i].name == *name {
            found = Some(i);
        }
    }
    assert(fields@.skip(0) =~= fields@);
    found
}

/// Finds the first variant of that name.
pub fn find_variant(variants: &Vec<Variant>, name: &String) -> (found: Option<usize>)
    ensures
        match found {
            Some(i) => variant_index(variants@, name@) == Some(i as int) && i < variants.len(),
            None => variant_index(variants@, name@) is None,
        },
{
    let mut i: usize = variants.len();
    let mut found: Option<usize> = None;
    while i > 0
        invariant
            i <= variants.len(),
            match found {
                Some(j) => variant_index(variants@.skip(i as int), name@) == Some(j - i) && i <= j
                    < variants.len(),
                None => variant_index(variants@.skip(i as int), name@) is None,
            },
        decreases i,
    {
        i -= 1;
        assert(variants@.skip(i as int).skip(1) =~= variants@.skip(i + 1));
        if variants[i].name == *name {
            found = Some(i);
        }
    }
    assert(variants@.skip(0) =~= variants@);
    found
}

/// Finds the first unit variant of that name.
pub fn find_unit_variant(variants: &Vec<Variant>, name: &String) -> (found: Option<usize>)
    ensures
        match found {
            Some(i) => unit_variant_index(variants@, name@) == Some(i as int) && i
                < variants.len(),
            None => unit_variant_index(variants@, name@) is None,
        },
{
    let mut i: usize = variants.len();
    let mut found: Option<usize> = None;
    while i > 0
        invariant
            i <= variants.len(),
            match found {
                Some(j) => unit_variant_index(variants@.skip(i as int), name@) == Some(j - i) && i
                    <= j < variants.len(),
                None => unit_variant_index(variants@.skip(i as int), name@) is None,
            },
        decreases i,
    {
        i -= 1;
        assert(variants@.skip(i as int).skip(1) =~= variants@.skip(i + 1));
        let is_unit = match &variants[i].kind {
            VariantKind::Unit => true,
            _ => false,
        };
        if is_unit && variants[i].name == *name {
            found = Some(i);
        }
    }
    assert(variants@.skip(0) =~= variants@);
    found
}

} // verus!
