//! Text in a thirty-two symbol alphabet, packed five bits to the symbol, and
//! a keyed cipher that turns the packed bytes into as many other bytes and
//! back.
//!
//! [`codec`] packs and reads text, [`cipher`] encrypts and decrypts buffers,
//! [`keys`] draws keys and reads their text form, and [`pipeline`] puts the
//! three together. [`alphabet`] and [`bits`] hold the model that the
//! contracts of the codec are stated over.

pub mod alphabet;
pub mod bits;
pub mod cipher;
pub mod codec;
pub mod keys;
pub mod pipeline;
