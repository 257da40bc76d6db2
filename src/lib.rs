//! Ordered `(key, value)` sequences carried through map-shaped encodings.
//!
//! A map written by a format keeps no order of its own in memory; a
//! `Vec<(K, V)>` does. This library holds the decisions that turn such a
//! sequence into the entries of a map sink, and the entries of a map source
//! back into a sequence, with their order kept and nothing deduplicated.
use vstd::prelude::*;

pub mod vecmap;
pub mod opt_mapvec;
