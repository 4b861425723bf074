//! A calculator core over the ten fixed-width integer types: it parses two
//! decimal operands under a textually chosen type, applies the four checked
//! arithmetic and three bitwise operations with that type's overflow and
//! division rules, and renders a report that shows every result in decimal
//! and every bit pattern in grouped binary and fixed-width hexadecimal.
//! Every function is specified against the mathematical model in `model`
//! and verified; the laws the engine obeys are stated and proved in `laws`.

pub mod calculator;
pub mod format;
pub mod laws;
pub mod model;
pub mod parse;
pub mod traits;
pub mod types;
