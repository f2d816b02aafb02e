use vstd::prelude::*;
use vstd::layout::size_of;
use vstd::bytes::{
    spec_u16_to_le_bytes, spec_u16_from_le_bytes, spec_u32_to_le_bytes, spec_u32_from_le_bytes,
    spec_u64_to_le_bytes, spec_u64_from_le_bytes,
};

verus! {

broadcast use vstd::layout::layout_of_primitives;

/// A value that can be stored in an arena, by the bytes that stand for it.
///
/// `spec_to_bytes` gives exactly `size_of::<Self>()` bytes, and decoding them gives the
/// value back.
pub trait ArenaItem: Sized {
    /// The bytes that stand for the value.
    spec fn spec_to_bytes(self) -> Seq<u8>;

    /// The value that a run of bytes stands for.
    spec fn spec_from_bytes(bytes: Seq<u8>) -> Self;

    /// Encoding takes `size_of::<Self>()` bytes and decoding undoes it.
    proof fn lemma_bytes_roundtrip(v: Self)
        ensures
            v.spec_to_bytes().len() == size_of::<Self>(),
            Self::spec_from_bytes(v.spec_to_bytes()) == v,
    ;

    /// Encodes the value.
    fn to_bytes(&self) -> (r: Vec<u8>)
        ensures
            r@ == self.spec_to_bytes(),
    ;

    /// Decodes a value from exactly `size_of::<Self>()` bytes.
    fn from_bytes(bytes: &[u8]) -> (r: Self)
        requires
            bytes@.len() == size_of::<Self>(),
        ensures
            r == Self::spec_from_bytes(bytes@),
    ;
}

impl ArenaItem for u8 {
    open spec fn spec_to_bytes(self) -> Seq<u8> {
        seq![self]
    }

    open spec fn spec_from_bytes(bytes: Seq<u8>) -> Self {
        bytes[0]
    }

    proof fn lemma_bytes_roundtrip(v: Self) {
    }

    fn to_bytes(&self) -> (r: Vec<u8>) {
        let mut r: Vec<u8> = Vec::new();
        r.push(*self);
        assert(r@ =~= seq![*self]);
        r
    }

    fn from_bytes(bytes: &[u8]) -> (r: Self) {
        bytes[0]
    }
}

impl ArenaItem for i8 {
    open spec fn spec_to_bytes(self) -> Seq<u8> {
        seq![self as u8]
    }

    open spec fn spec_from_bytes(bytes: Seq<u8>) -> Self {
        bytes[0] as i8
    }

    proof fn lemma_bytes_roundtrip(v: Self) {
        assert((v as u8) as i8 == v) by (bit_vector);
    }

    fn to_bytes(&self) -> (r: Vec<u8>) {
        let mut r: Vec<u8> = Vec::new();
        r.push(*self as u8);
        assert(r@ =~= seq![*self as u8]);
        r
    }

    fn from_bytes(bytes: &[u8]) -> (r: Self) {
        bytes[0] as i8
    }
}

impl ArenaItem for bool {
    open spec fn spec_to_bytes(self) -> Seq<u8> {
        seq![if self { 1u8 } else { 0u8 }]
    }

    open spec fn spec_from_bytes(bytes: Seq<u8>) -> Self {
        bytes[0] != 0
    }

    proof fn lemma_bytes_roundtrip(v: Self) {
    }

    fn to_bytes(&self) -> (r: Vec<u8>) {
        let mut r: Vec<u8> = Vec::new();
        r.push(if *self { 1u8 } else { 0u8 });
        assert(r@ =~= self.spec_to_bytes());
        r
    }

    fn from_bytes(bytes: &[u8]) -> (r: Self) {
        bytes[0] != 0
    }
}

impl ArenaItem for u16 {
    open spec fn spec_to_bytes(self) -> Seq<u8> {
        spec_u16_to_le_bytes(self)
    }

    open spec fn spec_from_bytes(bytes: Seq<u8>) -> Self {
        spec_u16_from_le_bytes(bytes)
    }

    proof fn lemma_bytes_roundtrip(v: Self) {
        vstd::bytes::lemma_auto_spec_u16_to_from_le_bytes();
        assert(spec_u16_to_le_bytes(v).len() == 2);
        assert(spec_u16_from_le_bytes(spec_u16_to_le_bytes(v)) == v);
    }

    fn to_bytes(&self) -> (r: Vec<u8>) {
        vstd::bytes::u16_to_le_bytes(*self)
    }

    fn from_bytes(bytes: &[u8]) -> (r: Self) {
        vstd::bytes::u16_from_le_bytes(bytes)
    }
}

impl ArenaItem for i16 {
    open spec fn spec_to_bytes(self) -> Seq<u8> {
        spec_u16_to_le_bytes(self as u16)
    }

    open spec fn spec_from_bytes(bytes: Seq<u8>) -> Self {
        spec_u16_from_le_bytes(bytes) as i16
    }

    proof fn lemma_bytes_roundtrip(v: Self) {
        vstd::bytes::lemma_auto_spec_u16_to_from_le_bytes();
        assert(spec_u16_to_le_bytes(v as u16).len() == 2);
        assert(spec_u16_from_le_bytes(spec_u16_to_le_bytes(v as u16)) == v as u16);
        assert((v as u16) as i16 == v) by (bit_vector);
    }

    fn to_bytes(&self) -> (r: Vec<u8>) {
        vstd::bytes::u16_to_le_bytes(*self as u16)
    }

    fn from_bytes(bytes: &[u8]) -> (r: Self) {
        vstd::bytes::u16_from_le_bytes(bytes) as i16
    }
}

impl ArenaItem for u32 {
    open spec fn spec_to_bytes(self) -> Seq<u8> {
        spec_u32_to_le_bytes(self)
    }

    open spec fn spec_from_bytes(bytes: Seq<u8>) -> Self {
        spec_u32_from_le_bytes(bytes)
    }

    proof fn lemma_bytes_roundtrip(v: Self) {
        vstd::bytes::lemma_auto_spec_u32_to_from_le_bytes();
        assert(spec_u32_to_le_bytes(v).len() == 4);
        assert(spec_u32_from_le_bytes(spec_u32_to_le_bytes(v)) == v);
    }

    fn to_bytes(&self) -> (r: Vec<u8>) {
        vstd::bytes::u32_to_le_bytes(*self)
    }

    fn from_bytes(bytes: &[u8]) -> (r: Self) {
        vstd::bytes::u32_from_le_bytes(bytes)
    }
}

impl ArenaItem for i32 {
    open spec fn spec_to_bytes(self) -> Seq<u8> {
        spec_u32_to_le_bytes(self as u32)
    }

    open spec fn spec_from_bytes(bytes: Seq<u8>) -> Self {
        spec_u32_from_le_bytes(bytes) as i32
    }

    proof fn lemma_bytes_roundtrip(v: Self) {
        vstd::bytes::lemma_auto_spec_u32_to_from_le_bytes();
        assert(spec_u32_to_le_bytes(v as u32).len() == 4);
        assert(spec_u32_from_le_bytes(spec_u32_to_le_bytes(v as u32)) == v as u32);
        assert((v as u32) as i32 == v) by (bit_vector);
    }

    fn to_bytes(&self) -> (r: Vec<u8>) {
        vstd::bytes::u32_to_le_bytes(*self as u32)
    }

    fn from_bytes(bytes: &[u8]) -> (r: Self) {
        vstd::bytes::u32_from_le_bytes(bytes) as i32
    }
}

impl ArenaItem for u64 {
    open spec fn spec_to_bytes(self) -> Seq<u8> {
        spec_u64_to_le_bytes(self)
    }

    open spec fn spec_from_bytes(bytes: Seq<u8>) -> Self {
        spec_u64_from_le_bytes(bytes)
    }

    proof fn lemma_bytes_roundtrip(v: Self) {
        vstd::bytes::lemma_auto_spec_u64_to_from_le_bytes();
        assert(spec_u64_to_le_bytes(v).len() == 8);
        assert(spec_u64_from_le_bytes(spec_u64_to_le_bytes(v)) == v);
    }

    fn to_bytes(&self) -> (r: Vec<u8>) {
        vstd::bytes::u64_to_le_bytes(*self)
    }

    fn from_bytes(bytes: &[u8]) -> (r: Self) {
        vstd::bytes::u64_from_le_bytes(bytes)
    }
}

impl ArenaItem for i64 {
    open spec fn spec_to_bytes(self) -> Seq<u8> {
        spec_u64_to_le_bytes(self as u64)
    }

    open spec fn spec_from_bytes(bytes: Seq<u8>) -> Self {
        spec_u64_from_le_bytes(bytes) as i64
    }

    proof fn lemma_bytes_roundtrip(v: Self) {
        vstd::bytes::lemma_auto_spec_u64_to_from_le_bytes();
        assert(spec_u64_to_le_bytes(v as u64).len() == 8);
        assert(spec_u64_from_le_bytes(spec_u64_to_le_bytes(v as u64)) == v as u64);
        assert((v as u64) as i64 == v) by (bit_vector);
    }

    fn to_bytes(&self) -> (r: Vec<u8>) {
        vstd::bytes::u64_to_le_bytes(*self as u64)
    }

    fn from_bytes(bytes: &[u8]) -> (r: Self) {
        vstd::bytes::u64_from_le_bytes(bytes) as i64
    }
}

} // verus!
