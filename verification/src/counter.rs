//! Client-side byte layout for the counter program: the instruction
//! payloads a client submits and the account data it reads back.
//!
//! An instruction payload is an eight-byte tag naming the instruction,
//! followed by its serialized arguments — none of the three instructions
//! here takes any.  Account data is an eight-byte type tag, the 64-bit
//! counter value in little-endian bytes, then the 32-byte authority key.
//! The transport that submits payloads and fetches account data lives
//! outside the library.

use vstd::bytes::{spec_u64_from_le_bytes, u64_from_le_bytes};
use vstd::prelude::*;
use vstd::slice::{slice_subrange, slice_to_vec};

verus! {

/// The counter account's state, as decoded from its raw data.
pub struct Counter {
    /// The counter's value.
    pub count: u64,
    /// The 32-byte key of the only holder allowed to change the value.
    pub authority: Vec<u8>,
}

impl Counter {
    /// The authority key is exactly 32 bytes.
    pub open spec fn wf(self) -> bool {
        self.authority@.len() == 32
    }
}

/// Tag of the instruction that creates a counter account.
pub open spec fn initialize_tag() -> Seq<u8> {
    seq![175u8, 175u8, 109u8, 31u8, 13u8, 152u8, 155u8, 237u8]
}

/// Tag of the instruction that adds one to a counter.
pub open spec fn increment_tag() -> Seq<u8> {
    seq![11u8, 18u8, 104u8, 9u8, 104u8, 174u8, 59u8, 33u8]
}

/// Tag of the instruction that subtracts one from a counter.
pub open spec fn decrement_tag() -> Seq<u8> {
    seq![106u8, 227u8, 168u8, 59u8, 248u8, 27u8, 150u8, 101u8]
}

/// Arguments of the instruction that creates a counter account: none.
pub struct Initialize {}

impl Initialize {
    /// The complete instruction payload: the tag alone, since there are
    /// no arguments to append.
    pub fn instruction_data(&self) -> (r: Vec<u8>)
        ensures
            r@ == initialize_tag(),
    {
        let mut d: Vec<u8> = Vec::new();
        d.push(175);
        d.push(175);
        d.push(109);
        d.push(31);
        d.push(13);
        d.push(152);
        d.push(155);
        d.push(237);
        proof {
            assert(d@ =~= initialize_tag());
        }
        d
    }
}

/// Arguments of the instruction that adds one to a counter: none.
pub struct Increment {}

impl Increment {
    /// The complete instruction payload: the tag alone.
    pub fn instruction_data(&self) -> (r: Vec<u8>)
        ensures
            r@ == increment_tag(),
    {
        let mut d: Vec<u8> = Vec::new();
        d.push(11);
        d.push(18);
        d.push(104);
        d.push(9);
        d.push(104);
        d.push(174);
        d.push(59);
        d.push(33);
        proof {
            assert(d@ =~= increment_tag());
        }
        d
    }
}

/// Arguments of the instruction that subtracts one from a counter: none.
pub struct Decrement {}

impl Decrement {
    /// The complete instruction payload: the tag alone.
    pub fn instruction_data(&self) -> (r: Vec<u8>)
        ensures
            r@ == decrement_tag(),
    {
        let mut d: Vec<u8> = Vec::new();
        d.push(106);
        d.push(227);
        d.push(168);
        d.push(59);
        d.push(248);
        d.push(27);
        d.push(150);
        d.push(101);
        proof {
            assert(d@ =~= decrement_tag());
        }
        d
    }
}

/// Decodes a counter account's raw data: the eight-byte type tag is
/// skipped, the count is read from the next eight bytes in little-endian
/// order, and the authority from the 32 bytes after them.  Data shorter
/// than one whole account record cannot be decoded.
pub fn decode_counter(data: &[u8]) -> (r: Option<Counter>)
    ensures
        r is Some <==> data@.len() >= 48,
        r matches Some(c) ==> {
            &&& c.count == spec_u64_from_le_bytes(data@.subrange(8, 16))
            &&& c.authority@ == data@.subrange(16, 48)
            &&& c.wf()
        },
{
    if data.len() < 48 {
        return None;
    }
    let count = u64_from_le_bytes(slice_subrange(data, 8, 16));
    let authority = slice_to_vec(slice_subrange(data, 16, 48));
    Some(Counter { count, authority })
}

} // verus!
