//! Payloads and items: what a table is built from.

use vstd::prelude::*;
use vstd::std_specs::cmp::PartialEqSpecImpl;
use vstd::string::StrSliceExecFns;
use vstd::utf8::encode_utf8;
use crate::bits::{le_bytes32, le_bytes64, store_le32, store_le64};
use crate::first_order::FOHash;
use crate::hash::{HashKey, Hashable};

verus! {

/// The payload of an item.
#[derive(Debug)]
pub enum ItemType {
    Str(String),
    I64(i64),
    I32(i32),
    U64(u64),
    U32(u32),
}

/// What a payload holds, as a mathematical value.
pub enum ItemValue {
    Str(Seq<char>),
    I64(i64),
    I32(i32),
    U64(u64),
    U32(u32),
}

impl ItemValue {
    /// The bytes a payload is hashed as: a string by its UTF-8 encoding, a
    /// number by its bytes in two's complement, lowest first.
    pub open spec fn bytes(self) -> Seq<u8> {
        match self {
            ItemValue::Str(s) => encode_utf8(s),
            ItemValue::I64(x) => le_bytes64(x as u64),
            ItemValue::I32(x) => le_bytes32(x as u32),
            ItemValue::U64(x) => le_bytes64(x),
            ItemValue::U32(x) => le_bytes32(x),
        }
    }
}

impl View for ItemType {
    type V = ItemValue;

    open spec fn view(&self) -> ItemValue {
        match self {
            ItemType::Str(s) => ItemValue::Str(s@),
            ItemType::I64(x) => ItemValue::I64(*x),
            ItemType::I32(x) => ItemValue::I32(*x),
            ItemType::U64(x) => ItemValue::U64(*x),
            ItemType::U32(x) => ItemValue::U32(*x),
        }
    }
}

impl Clone for ItemType {
    fn clone(&self) -> (copy: Self)
        ensures
            copy@ == self@,
    {
        match self {
            ItemType::Str(s) => ItemType::Str(s.clone()),
            ItemType::I64(x) => ItemType::I64(*x),
            ItemType::I32(x) => ItemType::I32(*x),
            ItemType::U64(x) => ItemType::U64(*x),
            ItemType::U32(x) => ItemType::U32(*x),
        }
    }
}

impl PartialEq for ItemType {
    fn eq(&self, other: &Self) -> (same: bool) {
        match (self, other) {
            (ItemType::Str(a), ItemType::Str(b)) => a.eq(b),
            (ItemType::I64(a), ItemType::I64(b)) => *a == *b,
            (ItemType::I32(a), ItemType::I32(b)) => *a == *b,
            (ItemType::U64(a), ItemType::U64(b)) => *a == *b,
            (ItemType::U32(a), ItemType::U32(b)) => *a == *b,
            _ => false,
        }
    }
}

impl PartialEqSpecImpl for ItemType {
    open spec fn obeys_eq_spec() -> bool {
        true
    }

    open spec fn eq_spec(&self, other: &Self) -> bool {
        self@ == other@
    }
}

impl Eq for ItemType {

}

impl Default for ItemType {
    fn default() -> (t: Self)
        ensures
            t@ == ItemValue::Str(Seq::empty()),
    {
        ItemType::Str(String::new())
    }
}

impl ItemType {
    /// The bytes the payload is hashed as.
    pub fn hashable(&self) -> (bytes: Hashable)
        ensures
            bytes@ == self@.bytes(),
    {
        match self {
            ItemType::Str(s) => s.as_str().as_bytes_vec(),
            ItemType::I64(x) => store_le64(*x as u64),
            ItemType::I32(x) => store_le32(*x as u32),
            ItemType::U64(x) => store_le64(*x),
            ItemType::U32(x) => store_le32(*x),
        }
    }
}

/// A payload with its first-order key.
pub struct Keyed {
    pub data: ItemValue,
    pub key: HashKey,
}

/// What an item holds: its payload, its first-order key, and the slot it
/// was given. The slot means nothing before the item is placed.
pub struct ItemView {
    pub data: ItemValue,
    pub key: HashKey,
    pub final_pos: u32,
}

impl ItemView {
    /// The payload and the key, without the slot.
    pub open spec fn keyed(self) -> Keyed {
        Keyed { data: self.data, key: self.key }
    }

    /// The same item in slot `pos`.
    pub open spec fn placed_at(self, pos: u32) -> ItemView {
        ItemView { data: self.data, key: self.key, final_pos: pos }
    }
}

/// One element of the input, with its key computed once.
#[derive(Debug)]
pub struct Item {
    data: ItemType,
    key: HashKey,
    final_pos: u32,
}

impl View for Item {
    type V = ItemView;

    closed spec fn view(&self) -> ItemView {
        ItemView { data: self.data@, key: self.key, final_pos: self.final_pos }
    }
}

impl Clone for Item {
    fn clone(&self) -> (copy: Self)
        ensures
            copy@ == self@,
    {
        Item { data: self.data.clone(), key: self.key, final_pos: self.final_pos }
    }
}

impl Default for Item {
    fn default() -> (item: Self)
        ensures
            item@ == (ItemView {
                data: ItemValue::Str(Seq::empty()),
                key: HashKey::Bits32(0),
                final_pos: 0,
            }),
    {
        Item { data: ItemType::Str(String::new()), key: HashKey::Bits32(0), final_pos: 0 }
    }
}

impl Item {
    /// An item for `item_type`, keyed by `hasher` on the payload's bytes.
    pub fn new(item_type: ItemType, hasher: &FOHash) -> (item: Item)
        ensures
            item@ == (ItemView {
                data: item_type@,
                key: hasher.hash_of(item_type@.bytes()),
                final_pos: 0,
            }),
    {
        let bytes = item_type.hashable();
        Item { key: hasher.hash(&bytes), data: item_type, final_pos: 0 }
    }

    /// An item that carries a key computed elsewhere.
    pub fn with_key(item_type: ItemType, key: HashKey) -> (item: Item)
        ensures
            item@ == (ItemView { data: item_type@, key, final_pos: 0 }),
    {
        Item { key, data: item_type, final_pos: 0 }
    }

    /// The payload.
    pub fn item_type(&self) -> (data: &ItemType)
        ensures
            data@ == self@.data,
    {
        &self.data
    }

    /// The first-order key, as it was computed when the item was made.
    pub fn key(&self) -> (key: HashKey)
        ensures
            key == self@.key,
    {
        self.key
    }

    /// The slot the item was given when its bucket was placed.
    pub fn final_pos(&self) -> (pos: u32)
        ensures
            pos == self@.final_pos,
    {
        self.final_pos
    }

    /// Writes the item's slot.
    pub fn place(&mut self, pos: u32)
        ensures
            final(self)@ == old(self)@.placed_at(pos),
    {
        self.final_pos = pos;
    }
}

} // verus!
