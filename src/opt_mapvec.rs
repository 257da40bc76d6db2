//! Decoding of an optional `Vec<(K, V)>`: absent, or the entries of one map.
use core::marker::PhantomData;
use vstd::prelude::*;

verus! {

/// Decoder of an optional map-shaped value into `Option<Vec<(K, V)>>`.
///
/// An absent value gives `None`, which is not the same as `Some` of an empty
/// sequence; a present one is decoded as a map.
pub struct OptionalTupleVecMapVisitor<K, V> {
    /// Carries the entry types; the decoder holds no state.
    pub marker: PhantomData<Vec<(K, V)>>,
}

impl<K, V> OptionalTupleVecMapVisitor<K, V> {
    /// The decoder, which holds no state: any two are the same.
    pub fn new() -> (r: Self)
        ensures
            r == (OptionalTupleVecMapVisitor::<K, V> { marker: PhantomData }),
    {
        OptionalTupleVecMapVisitor { marker: PhantomData }
    }

    /// What this decoder expects to find, for diagnostics.
    pub fn expecting(&self) -> (r: &'static str)
        ensures
            r@ == "null or a map"@,
    {
        "null or a map"
    }

    /// The source reports that no value is present.
    pub fn visit_none(self) -> (r: Option<Vec<(K, V)>>)
        ensures
            r is None,
    {
        None
    }

    /// The source reports a value, and `inner` is what decoding that value as
    /// a map gave: its entries become the present value, and its error is
    /// handed on unchanged.
    pub fn visit_some<E>(self, inner: Result<Vec<(K, V)>, E>) -> (r: Result<
        Option<Vec<(K, V)>>,
        E,
    >)
        ensures
            r == match inner {
                Ok(entries) => Ok::<Option<Vec<(K, V)>>, E>(Some(entries)),
                Err(e) => Err(e),
            },
    {
        match inner {
            Ok(entries) => Ok(Some(entries)),
            Err(e) => Err(e),
        }
    }
}

} // verus!
