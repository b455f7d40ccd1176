//! An in-memory engine for comparing dense per-position embeddings of a square
//! grid under a closed set of similarity and distance metrics.
//!
//! The library is the integer core of the engine. Scalars are carried as
//! IEEE-754 bit patterns (`u16` for the half-precision source values, `u32`
//! for single-precision statistics and scores) and are never combined
//! arithmetically here. The caller does the arithmetic in between:
//!
//! - To cache a representation, ask [`store::Store::has`], retrieve the
//!   payload, hand it to [`wire::receive`], derive the statistics of the
//!   table, join both with [`bundle::Bundle::new`] and enter the bundle with
//!   [`store::Store::ingest`].
//! - To answer a query, call [`query::resolve`], score every position of the
//!   second bundle against the reference row, ask [`finish::finish`] what the
//!   metric wants done with the raw scores, and do it.
pub mod bundle;
pub mod finish;
pub mod grid;
pub mod metric;
pub mod query;
pub mod scalar;
pub mod store;
pub mod text;
pub mod wire;
