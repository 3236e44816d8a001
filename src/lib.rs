//! Connection lookup between two stations: extraction of itinerary legs from a
//! schedule response and their shaping into tables.
pub mod connection;
pub mod error;
pub mod json;
pub mod query;
pub mod render;
pub mod text;
pub mod time;
