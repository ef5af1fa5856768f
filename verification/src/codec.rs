//! Command and parameter integers: the two packed 32-bit value kinds that
//! make up an encoded geometry, and the growable sequence that holds them.

use vstd::prelude::*;

verus! {

/// The three drawing commands of the encoding convention.
#[derive(Clone, Copy, PartialEq, Eq, Structural, Debug)]
pub enum Command {
    MoveTo,
    LineTo,
    ClosePath,
}

impl Command {
    /// The numeric identifier of the command on the wire.
    pub open spec fn spec_code(self) -> u32 {
        match self {
            Command::MoveTo => 1u32,
            Command::LineTo => 2u32,
            Command::ClosePath => 7u32,
        }
    }

    pub fn code(&self) -> (c: u32)
        ensures
            c == self.spec_code(),
    {
        match self {
            Command::MoveTo => 1,
            Command::LineTo => 2,
            Command::ClosePath => 7,
        }
    }
}

/// A command identifier and its repeat count packed into one unsigned
/// 32-bit value: the low three bits hold the identifier, the rest the count.
pub open spec fn pack_command(id: u32, count: u32) -> u32 {
    (id & 7) | (count << 3u32)
}

/// Packing a command identifier below 8 with a count below 2^29 loses
/// nothing: the identifier comes back from the low three bits and the
/// count from the remaining ones.
pub proof fn lemma_command_roundtrip(id: u32, count: u32)
    requires
        id < 8,
        count < 0x2000_0000,
    ensures
        pack_command(id, count) & 7 == id,
        pack_command(id, count) >> 3u32 == count,
{
    assert(((id & 7) | (count << 3u32)) & 7 == id && ((id & 7) | (count << 3u32)) >> 3u32
        == count) by (bit_vector)
        requires
            id < 8u32,
            count < 0x2000_0000u32,
    ;
}

/// One command integer: a drawing command and the number of times it
/// repeats, packed as `(id & 0x7) | (count << 3)`.
#[derive(Clone, Copy, PartialEq, Eq, Structural, Debug)]
pub struct CommandInteger(pub u32);

impl CommandInteger {
    pub fn new(id: Command, count: u32) -> (r: CommandInteger)
        requires
            count < 0x2000_0000,
        ensures
            r.0 == pack_command(id.spec_code(), count),
            r.0 & 7 == id.spec_code(),
            r.0 >> 3u32 == count,
    {
        let c = id.code();
        proof {
            lemma_command_roundtrip(id.spec_code(), count);
        }
        CommandInteger((c & 0x7) | (count << 3))
    }

    pub fn id(&self) -> (r: u32)
        ensures
            r == self.0 & 7,
    {
        self.0 & 0x7
    }

    pub fn count(&self) -> (r: u32)
        ensures
            r == self.0 >> 3u32,
    {
        self.0 >> 3
    }
}

/// Zigzag encoding of a signed 32-bit delta: `(v << 1) ^ (v >> 31)`, the
/// right shift sign-filling, reinterpreted as unsigned.
pub open spec fn zigzag(v: i32) -> u32 {
    ((v << 1i32) ^ (v >> 31i32)) as u32
}

/// The inverse mapping: `(p >> 1)` with the sign restored from the low bit.
pub open spec fn unzigzag(p: u32) -> i32 {
    ((p >> 1u32) as i32) ^ (if p & 1 == 1 {
        -1i32
    } else {
        0i32
    })
}

/// Zigzag encoding keeps small magnitudes small: a non-negative delta
/// becomes twice its value, a negative one twice its magnitude minus one.
pub proof fn lemma_zigzag_values(v: i32)
    ensures
        v >= 0 ==> zigzag(v) == 2 * v,
        v < 0 ==> zigzag(v) == -2 * (v as int) - 1,
{
    assert(v >= 0 ==> ((v << 1i32) ^ (v >> 31i32)) as u32 == 2 * v) by (bit_vector);
    assert(v < 0 ==> ((v << 1i32) ^ (v >> 31i32)) as u32 == -2 * (v as int) - 1) by (bit_vector);
}

/// Decoding a zigzag-encoded delta returns the delta unchanged.
pub proof fn lemma_parameter_roundtrip(v: i32)
    ensures
        unzigzag(zigzag(v)) == v,
{
    let p = zigzag(v);
    assert(p == ((v << 1i32) ^ (v >> 31i32)) as u32);
    assert(((((((v << 1i32) ^ (v >> 31i32)) as u32) >> 1u32) as i32) ^ (if (((v << 1i32) ^ (v
        >> 31i32)) as u32) & 1 == 1 {
        -1i32
    } else {
        0i32
    })) == v) by (bit_vector);
}

/// One parameter integer: a signed coordinate delta, zigzag-encoded into
/// one unsigned 32-bit value.
#[derive(Clone, Copy, PartialEq, Eq, Structural, Debug)]
pub struct ParameterInteger(pub u32);

impl ParameterInteger {
    pub fn new(value: i32) -> (r: ParameterInteger)
        ensures
            r.0 == zigzag(value),
    {
        ParameterInteger(((value << 1) ^ (value >> 31)) as u32)
    }

    pub fn value(&self) -> (r: i32)
        ensures
            r == unzigzag(self.0),
    {
        proof {
            let p = self.0;
            assert(p & 1 == 0 || p & 1 == 1) by (bit_vector);
        }
        ((self.0 >> 1) as i32) ^ (-((self.0 & 1) as i32))
    }
}

/// An ordered, growable buffer of packed integers: the wire-level geometry
/// encoding handed to the outer serialization layer.
pub struct CommandSequence(pub Vec<u32>);

impl View for CommandSequence {
    type V = Seq<u32>;

    open spec fn view(&self) -> Seq<u32> {
        self.0@
    }
}

impl CommandSequence {
    pub fn new() -> (r: CommandSequence)
        ensures
            r@ == Seq::<u32>::empty(),
    {
        CommandSequence(Vec::new())
    }

    /// The encoded integers as a plain vector for the outer serializer.
    pub fn vec(&self) -> (r: Vec<u32>)
        ensures
            r@ == self@,
    {
        let mut r: Vec<u32> = Vec::new();
        let mut i: usize = 0;
        while i < self.0.len()
            invariant
                i <= self.0.len(),
                r@ == self.0@.take(i as int),
            decreases self.0.len() - i,
        {
            r.push(self.0[i]);
            proof {
                assert(self.0@.take(i + 1 as int) =~= self.0@.take(i as int).push(self.0@[i as int]));
            }
            i = i + 1;
        }
        proof {
            assert(self.0@.take(self.0.len() as int) =~= self.0@);
        }
        r
    }

    /// Moves all of `other`'s integers onto the end of `self`, leaving
    /// `other` empty.
    pub fn append(&mut self, other: &mut CommandSequence)
        ensures
            final(self)@ == old(self)@ + old(other)@,
            final(other)@ == Seq::<u32>::empty(),
    {
        self.0.append(&mut other.0);
    }

    pub fn push(&mut self, value: u32)
        ensures
            final(self)@ == old(self)@.push(value),
    {
        self.0.push(value);
    }
}

} // verus!
