use vstd::prelude::*;

verus! {

/// The allocator's liveness bitset, one bit per entity slot.
///
/// The backing store is bitvec's `BitVec`, which Verus cannot look into; its
/// contents are modelled by the uninterpreted sequence [`bits`], and the
/// methods below are the trusted account of what each bitvec call does to
/// that sequence, matching bitvec's own documentation.
#[verifier::external_body]
pub struct LiveBits {
    bits: bitvec::vec::BitVec<usize, bitvec::order::Lsb0>,
}

/// The bits held by a liveness bitset, lowest slot index first.
pub uninterp spec fn bits(b: LiveBits) -> Seq<bool>;

impl LiveBits {
    /// Relies on bitvec's `BitVec::new`: the new bit-vector is empty.
    #[verifier::external_body]
    pub(crate) fn new() -> (b: LiveBits)
        ensures
            bits(b).len() == 0,
    {
        LiveBits { bits: bitvec::vec::BitVec::new() }
    }

    /// Relies on bitvec's `BitVec::len`: the number of bits held.
    #[verifier::external_body]
    pub(crate) fn len(&self) -> (n: usize)
        ensures
            n == bits(*self).len(),
    {
        self.bits.len()
    }

    /// Relies on bitvec's `BitSlice::index`: reads the bit at `i`.
    #[verifier::external_body]
    pub(crate) fn get(&self, i: usize) -> (r: bool)
        requires
            i < bits(*self).len(),
        ensures
            r == bits(*self)[i as int],
    {
        self.bits[i]
    }

    /// Relies on bitvec's `BitSlice::set`: writes the bit at `i` and leaves
    /// every other bit as it was. It panics on an out-of-range index, so
    /// that index is required away.
    #[verifier::external_body]
    pub(crate) fn set(&mut self, i: usize, v: bool)
        requires
            i < bits(*old(self)).len(),
        ensures
            bits(*final(self)) == bits(*old(self)).update(i as int, v),
    {
        self.bits.set(i, v)
    }

    /// Relies on bitvec's `BitVec::resize`: grows the vector to `new_len`
    /// bits, keeping the existing bits and filling the new tail with `false`.
    #[verifier::external_body]
    pub(crate) fn grow(&mut self, new_len: usize)
        requires
            bits(*old(self)).len() <= new_len,
        ensures
            bits(*final(self)).len() == new_len,
            forall|i: int|
                0 <= i < bits(*old(self)).len() ==> bits(*final(self))[i] == bits(*old(self))[i],
            forall|i: int| bits(*old(self)).len() <= i < new_len ==> !bits(*final(self))[i],
    {
        self.bits.resize(new_len, false)
    }

    /// Relies on bitvec's `BitVec::clear`: removes every bit.
    #[verifier::external_body]
    pub(crate) fn clear(&mut self)
        ensures
            bits(*final(self)).len() == 0,
    {
        self.bits.clear()
    }
}

} // verus!
