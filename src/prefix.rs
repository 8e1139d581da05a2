//! Values read through a prefix of their bytes.
//!
//! A prefixed type has a fixed-size byte form whose fields are laid out in
//! append order. Its bytes can be held as a [`Pre`] and read back as the
//! type itself when there are enough of them, or as any other prefixed type
//! whose byte form they begin with.
use vstd::prelude::*;
use vstd::slice::slice_to_vec;


verus! {

/// Field accessors over a prefix of a prefixed value's bytes.
pub trait Fields: Sized {
    spec fn spec_field_bytes(&self) -> Seq<u8>;

    fn from_field_bytes(bytes: Vec<u8>) -> (r: Self)
        ensures
            r.spec_field_bytes() == bytes@,
    ;
}

/// A type with a fixed-size byte form that can be read from any byte string
/// at least that long.
pub trait Prefixed: Sized {
    /// The accessors for a prefix of the byte form.
    type Fields: Fields;

    spec fn spec_size() -> nat;

    spec fn spec_encode(value: Self) -> Seq<u8>;

    spec fn spec_decode(bytes: Seq<u8>) -> Self;

    /// Encoding gives exactly `spec_size` bytes, and decoding them back,
    /// whatever follows, gives the value encoded.
    proof fn lemma_encode_decode(value: Self, rest: Seq<u8>)
        ensures
            Self::spec_encode(value).len() == Self::spec_size(),
            Self::spec_decode(Self::spec_encode(value) + rest) == value,
    ;

    /// Decoding looks at the first `spec_size` bytes only.
    proof fn lemma_decode_prefix(bytes: Seq<u8>)
        requires
            bytes.len() >= Self::spec_size(),
        ensures
            Self::spec_decode(bytes) == Self::spec_decode(bytes.take(Self::spec_size() as int)),
    ;

    fn size() -> (r: usize)
        ensures
            r == Self::spec_size(),
    ;

    fn encode(&self) -> (r: Vec<u8>)
        ensures
            r@ == Self::spec_encode(*self),
    ;

    fn decode(bytes: &[u8]) -> (r: Self)
        requires
            bytes@.len() >= Self::spec_size(),
        ensures
            r == Self::spec_decode(bytes@),
    ;
}

/// An owned value of `T` in byte form, with the number of bytes it covers.
pub struct Prefix<T> {
    bytes: Vec<u8>,
    size: usize,
    _phantom: core::marker::PhantomData<T>,
}

impl<T: Prefixed> Prefix<T> {
    pub closed spec fn bytes(&self) -> Seq<u8> {
        self.bytes@
    }

    pub closed spec fn spec_size(&self) -> usize {
        self.size
    }

    /// The whole of `value` in byte form.
    pub fn new(value: T) -> (r: Self)
        ensures
            r.bytes() == T::spec_encode(value),
            r.spec_size() == T::spec_size(),
    {
        let bytes = value.encode();
        Prefix { bytes, size: T::size(), _phantom: core::marker::PhantomData }
    }

    /// The field accessors over the bytes held.
    pub fn fields(&self) -> (r: T::Fields)
        ensures
            r.spec_field_bytes() == self.bytes(),
    {
        T::Fields::from_field_bytes(slice_to_vec(self.bytes.as_slice()))
    }
}

/// The byte form of some value of a prefixed type, of any length.
pub struct Pre<T> {
    bytes: Vec<u8>,
    _phantom: core::marker::PhantomData<T>,
}

impl<T: Prefixed> Pre<T> {
    pub closed spec fn bytes(&self) -> Seq<u8> {
        self.bytes@
    }

    /// Moves the bytes of `prefix` to a new byte view.
    pub fn new(prefix: Prefix<T>) -> (r: Self)
        ensures
            r.bytes() == prefix.bytes(),
    {
        Pre { bytes: prefix.bytes, _phantom: core::marker::PhantomData }
    }

    /// A byte view over `bytes`.
    pub fn from_bytes(bytes: Vec<u8>) -> (r: Self)
        ensures
            r.bytes() == bytes@,
    {
        Pre { bytes, _phantom: core::marker::PhantomData }
    }

    /// The same bytes viewed as the byte form of `U`.
    pub fn cast<U: Prefixed>(&self) -> (r: Pre<U>)
        ensures
            r.bytes() == self.bytes(),
    {
        Pre { bytes: slice_to_vec(self.bytes.as_slice()), _phantom: core::marker::PhantomData }
    }

    /// The value held, when there are enough bytes for a whole `T`.
    pub fn get(&self) -> (r: Option<T>)
        ensures
            r == (if self.bytes().len() >= T::spec_size() {
                Some(T::spec_decode(self.bytes()))
            } else {
                None::<T>
            }),
    {
        if self.bytes.len() >= T::size() {
            Some(self.get_unchecked())
        } else {
            None
        }
    }

    /// The value held, which the caller knows to be whole.
    pub fn get_unchecked(&self) -> (r: T)
        requires
            self.bytes().len() >= T::spec_size(),
        ensures
            r == T::spec_decode(self.bytes()),
    {
        T::decode(self.bytes.as_slice())
    }

    /// The field accessors over the bytes held.
    pub fn fields(&self) -> (r: T::Fields)
        ensures
            r.spec_field_bytes() == self.bytes(),
    {
        T::Fields::from_field_bytes(slice_to_vec(self.bytes.as_slice()))
    }
}

} // verus!
