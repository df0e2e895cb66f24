//! The NBT data model: a tag arena with typed pointers into it, in the
//! style of a flattened tag tree. Floating-point tags carry their raw
//! IEEE bits; nothing here computes with them.

use vstd::prelude::*;

verus! {

pub const END_ID: u8 = 0;

pub const BYTE_ID: u8 = 1;

pub const SHORT_ID: u8 = 2;

pub const INT_ID: u8 = 3;

pub const LONG_ID: u8 = 4;

pub const FLOAT_ID: u8 = 5;

pub const DOUBLE_ID: u8 = 6;

pub const BYTE_ARRAY_ID: u8 = 7;

pub const STRING_ID: u8 = 8;

pub const LIST_ID: u8 = 9;

pub const COMPOUND_ID: u8 = 10;

pub const INT_ARRAY_ID: u8 = 11;

pub const LONG_ARRAY_ID: u8 = 12;

/// An NBT value, as stored in the arena.
#[derive(Debug)]
pub enum NbtTag {
    Byte(i8),
    Short(i16),
    Int(i32),
    Long(i64),
    /// The raw bits of a 32-bit float.
    Float(u32),
    /// The raw bits of a 64-bit float.
    Double(u64),
    ByteArray(Vec<u8>),
    NbtString(Vec<u8>),
    List(NbtList),
    Compound(NbtCompound),
    IntArray(Vec<i32>),
    LongArray(Vec<i64>),
}

/// A list of same-typed NBT values; the variant is the element tag id.
#[derive(Debug)]
pub enum NbtList {
    Empty,
    Byte(Vec<i8>),
    Short(Vec<i16>),
    Int(Vec<i32>),
    Long(Vec<i64>),
    Float(Vec<u32>),
    Double(Vec<u64>),
    ByteArray(Vec<Vec<u8>>),
    NbtString(Vec<Vec<u8>>),
    List(Vec<NbtList>),
    Compound(Vec<UntypedTagPointer>),
    IntArray(Vec<Vec<i32>>),
    LongArray(Vec<Vec<i64>>),
}

impl NbtList {
    /// The numerical id of the element tag type.
    pub fn id(&self) -> (r: u8)
        ensures
            r == self.spec_id(),
    {
        match self {
            NbtList::Empty => END_ID,
            NbtList::Byte(_) => BYTE_ID,
            NbtList::Short(_) => SHORT_ID,
            NbtList::Int(_) => INT_ID,
            NbtList::Long(_) => LONG_ID,
            NbtList::Float(_) => FLOAT_ID,
            NbtList::Double(_) => DOUBLE_ID,
            NbtList::ByteArray(_) => BYTE_ARRAY_ID,
            NbtList::NbtString(_) => STRING_ID,
            NbtList::List(_) => LIST_ID,
            NbtList::Compound(_) => COMPOUND_ID,
            NbtList::IntArray(_) => INT_ARRAY_ID,
            NbtList::LongArray(_) => LONG_ARRAY_ID,
        }
    }

    /// The numerical id of the element tag type.
    pub open spec fn spec_id(&self) -> u8 {
        match self {
            NbtList::Empty => END_ID,
            NbtList::Byte(_) => BYTE_ID,
            NbtList::Short(_) => SHORT_ID,
            NbtList::Int(_) => INT_ID,
            NbtList::Long(_) => LONG_ID,
            NbtList::Float(_) => FLOAT_ID,
            NbtList::Double(_) => DOUBLE_ID,
            NbtList::ByteArray(_) => BYTE_ARRAY_ID,
            NbtList::NbtString(_) => STRING_ID,
            NbtList::List(_) => LIST_ID,
            NbtList::Compound(_) => COMPOUND_ID,
            NbtList::IntArray(_) => INT_ARRAY_ID,
            NbtList::LongArray(_) => LONG_ARRAY_ID,
        }
    }
}

/// A position in the tag arena whose tag type the context knows.
#[derive(Debug, Clone, Copy, PartialEq, Eq, Structural)]
pub struct UntypedTagPointer {
    pub position: usize,
}

/// A position in the tag arena together with its tag type.
#[derive(Debug, Clone, Copy, PartialEq, Eq, Structural)]
pub struct TagPointer {
    pub position: usize,
    pub tag_type: u8,
}

/// An ordered mapping from names to tags, kept as name and pointer pairs
/// in insertion order.
#[derive(Debug, Clone, PartialEq, Eq)]
pub struct NbtCompound {
    pub inner: Vec<(Vec<u8>, TagPointer)>,
}

impl NbtCompound {
    /// An empty compound; the capacity is a hint only.
    pub fn with_capacity(capacity: usize) -> (r: NbtCompound)
        ensures
            r.inner@.len() == 0,
    {
        let inner: Vec<(Vec<u8>, TagPointer)> = Vec::new();
        NbtCompound { inner }
    }

    /// Append an entry, leaving the order to the caller.
    pub fn insert_unsorted(&mut self, name: Vec<u8>, pointer: TagPointer)
        ensures
            final(self).inner@ == old(self).inner@.push((name, pointer)),
    {
        self.inner.push((name, pointer));
    }

    /// The entries, in insertion order.
    pub fn entries(&self) -> (r: &Vec<(Vec<u8>, TagPointer)>)
        ensures
            r == self.inner,
    {
        &self.inner
    }
}

/// A whole named NBT document: the tag arena and the root compound.
#[derive(Debug)]
pub struct Nbt {
    pub name: Vec<u8>,
    /// Every tag of the document; the root compound is the entry point.
    pub tags: Vec<NbtTag>,
    pub root: UntypedTagPointer,
}

impl Nbt {
    /// An empty document under `name`.
    pub fn new(name: Vec<u8>) -> (r: Nbt)
        ensures
            r.name == name,
            r.tags@.len() == 0,
            r.root.position == 0,
    {
        Nbt { name, tags: Vec::new(), root: UntypedTagPointer { position: 0 } }
    }

    /// Put a tag into the arena and hand back where it went.
    pub fn push(&mut self, tag: NbtTag) -> (r: UntypedTagPointer)
        requires
            old(self).tags@.len() < usize::MAX,
        ensures
            final(self).tags@ == old(self).tags@.push(tag),
            final(self).name == old(self).name,
            final(self).root == old(self).root,
            r.position == old(self).tags@.len(),
    {
        self.tags.push(tag);
        UntypedTagPointer { position: self.tags.len() - 1 }
    }
}

} // verus!
