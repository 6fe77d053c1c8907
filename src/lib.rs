//! Conversion between typed Rust values and JavaScript values.
//!
//! The library models a JavaScript value as a plain tree ([`value::JsValue`])
//! and holds every coercion rule of both directions: how each shape of the
//! serde data model becomes a JavaScript value ([`ser`]), which JavaScript
//! values each shape accepts back and what it reads from them ([`de`]), and
//! the exact conversion of integers to and from JavaScript numbers
//! ([`number`]). [`round_trip`] states that every shape survives the trip.

pub mod de;
pub mod errors;
pub mod number;
pub mod round_trip;
pub mod ser;
pub mod value;
