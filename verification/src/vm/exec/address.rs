//! Tagged 64-bit addresses of the virtual machine.
//!
//! The three most significant bits of a raw address select an address space,
//! the remaining 61 bits are the offset inside that space.

use vstd::prelude::*;

verus! {

/// Number of bits that hold the offset inside an address space.
pub const OFFSET_BITS: u64 = 61;

/// Represents where an address points to.
#[derive(PartialEq, Eq, Structural, Clone, Copy, Debug)]
pub enum AddressType {
    /// Static program memory
    Program,
    /// Stack memory
    Stack,
    /// Dynamically allocated
    Heap,
    /// External memory
    Foreign,
    /// Swapspace
    Swap,
}

/// Represents an address in the VM.
#[derive(Debug)]
pub struct Address {
    /// The raw address found in bytecode
    pub raw_address: u64,
    /// The actual address after parsing
    pub real_address: u64,
    /// The address type
    pub address_type: AddressType,
}

/// The number that stands for an address space in the top three bits.
pub open spec fn tag_of(address_type: AddressType) -> u64 {
    match address_type {
        AddressType::Program => 0,
        AddressType::Stack => 1,
        AddressType::Heap => 2,
        AddressType::Swap => 3,
        AddressType::Foreign => 4,
    }
}

/// The address space that a tag number stands for; only 0 to 4 are tags.
pub open spec fn type_of_tag(tag: u64) -> Option<AddressType> {
    if tag == 0 {
        Some(AddressType::Program)
    } else if tag == 1 {
        Some(AddressType::Stack)
    } else if tag == 2 {
        Some(AddressType::Heap)
    } else if tag == 3 {
        Some(AddressType::Swap)
    } else if tag == 4 {
        Some(AddressType::Foreign)
    } else {
        None
    }
}

/// Packs an offset and an address space into a raw address.
pub open spec fn encode(real_address: u64, address_type: AddressType) -> u64 {
    real_address | (tag_of(address_type) << 61)
}

/// The tag number in the top three bits of a raw address.
pub open spec fn raw_tag(raw: u64) -> u64 {
    raw >> 61
}

/// The offset in the low 61 bits of a raw address.
pub open spec fn raw_offset(raw: u64) -> u64 {
    (raw << 3) >> 3
}

/// The address space of a raw address, if its tag names one.
pub open spec fn decode_type(raw: u64) -> Option<AddressType> {
    type_of_tag(raw_tag(raw))
}

impl AddressType {
    /// The tag number of this address space.
    pub fn tag(&self) -> (tag: u64)
        ensures
            tag == tag_of(*self),
            tag <= 4,
    {
        match self {
            AddressType::Program => 0,
            AddressType::Stack => 1,
            AddressType::Heap => 2,
            AddressType::Swap => 3,
            AddressType::Foreign => 4,
        }
    }

    /// The address space that `tag` stands for.
    pub fn from_tag(tag: u64) -> (res: Option<AddressType>)
        ensures
            res == type_of_tag(tag),
    {
        if tag == 0 {
            Some(AddressType::Program)
        } else if tag == 1 {
            Some(AddressType::Stack)
        } else if tag == 2 {
            Some(AddressType::Heap)
        } else if tag == 3 {
            Some(AddressType::Swap)
        } else if tag == 4 {
            Some(AddressType::Foreign)
        } else {
            None
        }
    }
}

impl Address {
    /// An address is consistent when its raw form is the encoding of its
    /// offset and address space.
    pub open spec fn consistent(&self) -> bool {
        self.raw_address == encode(self.real_address, self.address_type)
    }

    /// Creates a new address given the actual address and a type.
    pub fn new(real_address: u64, address_type: AddressType) -> (address: Address)
        ensures
            address.real_address == real_address,
            address.address_type == address_type,
            address.raw_address == encode(real_address, address_type),
    {
        let type_raw: u64 = address_type.tag() << 61;
        Address { real_address, raw_address: real_address | type_raw, address_type }
    }

    /// Parses a raw address whose tag names an address space.
    pub fn from(raw: u64) -> (address: Address)
        requires
            decode_type(raw) is Some,
        ensures
            address.raw_address == raw,
            address.real_address == raw_offset(raw),
            Some(address.address_type) == decode_type(raw),
    {
        let address_type = match AddressType::from_tag(raw >> 61) {
            Some(address_type) => address_type,
            None => AddressType::Program,
        };
        Address { raw_address: raw, real_address: (raw << 3) >> 3, address_type }
    }

    /// Parses a raw address; `None` when the tag names no address space.
    pub fn decode(raw: u64) -> (res: Option<Address>)
        ensures
            res is Some <==> decode_type(raw) is Some,
            res matches Some(address) ==> {
                &&& address.raw_address == raw
                &&& address.real_address == raw_offset(raw)
                &&& Some(address.address_type) == decode_type(raw)
            },
    {
        match AddressType::from_tag(raw >> 61) {
            Some(_) => Some(Address::from(raw)),
            None => None,
        }
    }

    /// The raw form of this address, as found in bytecode.
    pub fn into(self) -> (raw: u64)
        ensures
            raw == self.raw_address,
    {
        self.raw_address
    }

    /// Adds a signed 16-bit integer offset to the real address. The raw
    /// form is left as it was.
    pub fn with_offset(self, offset: i16) -> (address: Address)
        requires
            0 <= self.real_address + offset <= u64::MAX,
        ensures
            address.real_address == self.real_address + offset,
            address.raw_address == self.raw_address,
            address.address_type == self.address_type,
    {
        let real_address: u64 = if offset < 0 {
            let magnitude: u64 = (-(offset as i32)) as u64;
            self.real_address - magnitude
        } else {
            self.real_address + offset as u64
        };
        Address { raw_address: self.raw_address, real_address, address_type: self.address_type }
    }

    /// Whether `with_offset` may be called with `offset`.
    pub fn offset_in_range(&self, offset: i16) -> (ok: bool)
        ensures
            ok <==> 0 <= self.real_address + offset <= u64::MAX,
    {
        if offset < 0 {
            self.real_address >= (-(offset as i32)) as u64
        } else {
            self.real_address <= u64::MAX - offset as u64
        }
    }
}

/// Encoding an offset of at most 61 bits with any address space and decoding
/// the result gives the offset and the address space back.
pub proof fn lemma_decode_encode(real_address: u64, address_type: AddressType)
    requires
        real_address < 0x2000_0000_0000_0000,
    ensures
        raw_offset(encode(real_address, address_type)) == real_address,
        decode_type(encode(real_address, address_type)) == Some(address_type),
{
    let tag = tag_of(address_type);
    assert(((real_address | (tag << 61)) << 3) >> 3 == real_address && (real_address | (tag << 61))
        >> 61 == tag) by (bit_vector)
        requires
            real_address < 0x2000_0000_0000_0000,
            tag <= 4,
    ;
}

/// Decoding a raw address with a valid tag and encoding the parts again
/// gives the raw address back.
pub proof fn lemma_encode_decode(raw: u64)
    requires
        decode_type(raw) is Some,
    ensures
        encode(raw_offset(raw), decode_type(raw)->0) == raw,
{
    let tag = raw_tag(raw);
    assert(tag == tag_of(decode_type(raw)->0));
    assert((((raw << 3) >> 3) | ((raw >> 61) << 61)) == raw) by (bit_vector);
}

} // verus!
