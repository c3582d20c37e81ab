//! Decoding of markup events into typed values.
//!
//! A document is first split into [`event::Event`]s. A [`de::Deserializer`]
//! walks them with one event of lookahead, a [`de::map::MapAccess`] discovers
//! the keys of one open element, and [`de::plain`] reads scalars from text.
//! What a value should look like is said by a [`shape::Shape`]; what was
//! found is a [`shape::Value`].

pub mod error;
pub mod event;
pub mod shape;
pub mod tokens;
pub mod de;
