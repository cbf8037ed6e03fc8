//! Auxiliary types at the chain interface.

use core::marker::PhantomData;

use vstd::prelude::*;

verus! {

/// A codec-opaque wrapper: the still-encoded bytes of a value of type
/// `T`, carried without decoding it.
#[derive(Debug)]
pub struct WrapperKeepOpaque<T> {
    data: Vec<u8>,
    _phantom: PhantomData<T>,
}

impl<T> WrapperKeepOpaque<T> {
    /// The encoded bytes the wrapper carries.
    pub closed spec fn data_spec(self) -> Seq<u8> {
        self.data@
    }

    /// Wraps already-encoded bytes.
    pub fn from_encoded(data: Vec<u8>) -> (w: Self)
        ensures
            w.data_spec() == data@,
    {
        WrapperKeepOpaque { data, _phantom: PhantomData }
    }

    /// Reads the encoded bytes back.
    pub fn encoded_data(&self) -> (r: &Vec<u8>)
        ensures
            r@ == self.data_spec(),
    {
        &self.data
    }
}

/// Marker type naming the runtime configuration of the target chain.
#[derive(Clone, Copy, Debug, PartialEq, Eq, Structural)]
pub struct InterBtcRuntime;

} // verus!
