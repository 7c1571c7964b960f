//! Lazy cursors that expand one value into many: the bits of an unsigned
//! integer, most significant first, and a run of copies of one symbol.

use vstd::arithmetic::power2::pow2;
use vstd::prelude::*;

verus! {

/// Bit `k` of `v`, counting from the least significant bit, as 0 or 1.
pub open spec fn bit_at(v: u64, k: u64) -> u8 {
    if (v >> k) & 1u64 == 1u64 {
        1
    } else {
        0
    }
}

/// The `w` low bits of `v`, most significant first.
pub open spec fn msb_bits(v: u64, w: nat) -> Seq<u8> {
    Seq::new(w, |i: int| bit_at(v, (w - 1 - i) as u64))
}

/// An unsigned integer type of fixed width whose bits can be read from the top.
pub trait UnsignedWord: Copy + Sized {
    /// The number of bits of the type, in specifications.
    spec fn width_spec() -> nat;

    /// The value, widened to 64 bits.
    spec fn value_spec(self) -> u64;

    /// The number of bits of the type.
    fn width() -> (r: usize)
        ensures
            r == Self::width_spec(),
            1 <= r <= 64,
    ;

    /// Tests the most significant bit of the type with the mask `1 << (W - 1)`.
    fn top_bit_set(self) -> (r: bool)
        ensures
            r == (bit_at(self.value_spec(), (Self::width_spec() - 1) as u64) == 1),
    ;

    /// Shifts left by one within the type's width.
    fn shifted_left(self) -> (r: Self)
        ensures
            forall|k: u64|
                1 <= k < Self::width_spec() ==> #[trigger] bit_at(r.value_spec(), k) == bit_at(
                    self.value_spec(),
                    (k - 1) as u64,
                ),
    ;
}

impl UnsignedWord for u8 {
    open spec fn width_spec() -> nat {
        8
    }

    open spec fn value_spec(self) -> u64 {
        self as u64
    }

    fn width() -> (r: usize) {
        8
    }

    fn top_bit_set(self) -> (r: bool) {
        let mask: u8 = 1u8 << 7u8;
        let r = (self & mask) != 0;
        proof {
            let x = self;
            assert(((x & (1u8 << 7u8)) != 0) == ((((x as u64) >> 7u64) & 1u64) == 1u64))
                by (bit_vector);
        }
        r
    }

    fn shifted_left(self) -> (r: Self) {
        let r = self << 1u8;
        proof {
            let x = self;
            assert forall|k: u64| 1 <= k < 8 implies #[trigger] bit_at(r as u64, k) == bit_at(
                x as u64,
                (k - 1) as u64,
            ) by {
                assert((((r as u64) >> k) & 1u64) == (((x as u64) >> ((k - 1) as u64)) & 1u64))
                    by (bit_vector)
                    requires
                        r == x << 1u8,
                        1 <= k < 8,
                ;
            }
        }
        r
    }
}

impl UnsignedWord for u16 {
    open spec fn width_spec() -> nat {
        16
    }

    open spec fn value_spec(self) -> u64 {
        self as u64
    }

    fn width() -> (r: usize) {
        16
    }

    fn top_bit_set(self) -> (r: bool) {
        let mask: u16 = 1u16 << 15u16;
        let r = (self & mask) != 0;
        proof {
            let x = self;
            assert(((x & (1u16 << 15u16)) != 0) == ((((x as u64) >> 15u64) & 1u64) == 1u64))
                by (bit_vector);
        }
        r
    }

    fn shifted_left(self) -> (r: Self) {
        let r = self << 1u16;
        proof {
            let x = self;
            assert forall|k: u64| 1 <= k < 16 implies #[trigger] bit_at(r as u64, k) == bit_at(
                x as u64,
                (k - 1) as u64,
            ) by {
                assert((((r as u64) >> k) & 1u64) == (((x as u64) >> ((k - 1) as u64)) & 1u64))
                    by (bit_vector)
                    requires
                        r == x << 1u16,
                        1 <= k < 16,
                ;
            }
        }
        r
    }
}

impl UnsignedWord for u32 {
    open spec fn width_spec() -> nat {
        32
    }

    open spec fn value_spec(self) -> u64 {
        self as u64
    }

    fn width() -> (r: usize) {
        32
    }

    fn top_bit_set(self) -> (r: bool) {
        let mask: u32 = 1u32 << 31u32;
        let r = (self & mask) != 0;
        proof {
            let x = self;
            assert(((x & (1u32 << 31u32)) != 0) == ((((x as u64) >> 31u64) & 1u64) == 1u64))
                by (bit_vector);
        }
        r
    }

    fn shifted_left(self) -> (r: Self) {
        let r = self << 1u32;
        proof {
            let x = self;
            assert forall|k: u64| 1 <= k < 32 implies #[trigger] bit_at(r as u64, k) == bit_at(
                x as u64,
                (k - 1) as u64,
            ) by {
                assert((((r as u64) >> k) & 1u64) == (((x as u64) >> ((k - 1) as u64)) & 1u64))
                    by (bit_vector)
                    requires
                        r == x << 1u32,
                        1 <= k < 32,
                ;
            }
        }
        r
    }
}

impl UnsignedWord for u64 {
    open spec fn width_spec() -> nat {
        64
    }

    open spec fn value_spec(self) -> u64 {
        self
    }

    fn width() -> (r: usize) {
        64
    }

    fn top_bit_set(self) -> (r: bool) {
        let mask: u64 = 1u64 << 63u64;
        let r = (self & mask) != 0;
        proof {
            let x = self;
            assert(((x & (1u64 << 63u64)) != 0) == (((x >> 63u64) & 1u64) == 1u64)) by (bit_vector);
        }
        r
    }

    fn shifted_left(self) -> (r: Self) {
        let r = self << 1u64;
        proof {
            let x = self;
            assert forall|k: u64| 1 <= k < 64 implies #[trigger] bit_at(r, k) == bit_at(
                x,
                (k - 1) as u64,
            ) by {
                assert(((r >> k) & 1u64) == ((x >> ((k - 1) as u64)) & 1u64))
                    by (bit_vector)
                    requires
                        r == x << 1u64,
                        1 <= k < 64,
                ;
            }
        }
        r
    }
}

/// A cursor over the bits of one value, most significant bit first.
pub struct IntoBitsIterator<T> {
    acc: T,
    remains: usize,
}

impl<T: UnsignedWord> View for IntoBitsIterator<T> {
    type V = Seq<u8>;

    /// The bits that are still to come.
    closed spec fn view(&self) -> Seq<u8> {
        Seq::new(
            self.remains as nat,
            |i: int| bit_at(self.acc.value_spec(), (T::width_spec() - 1 - i) as u64),
        )
    }
}

impl<T: UnsignedWord> IntoBitsIterator<T> {
    /// The width is between 1 and 64 bits and no more bits remain than it has.
    pub closed spec fn wf(&self) -> bool {
        &&& 1 <= T::width_spec() <= 64
        &&& self.remains <= T::width_spec()
    }

    /// A cursor over all `W` bits of `v`, where `W` is the width of `T`.
    pub fn new(v: T) -> (r: Self)
        ensures
            r.wf(),
            r@ == msb_bits(v.value_spec(), T::width_spec()),
    {
        let r = Self { acc: v, remains: T::width() };
        assert(r@ =~= msb_bits(v.value_spec(), T::width_spec()));
        r
    }

    /// The number of bits still to come.
    pub fn remaining(&self) -> (r: usize)
        requires
            self.wf(),
        ensures
            r == self@.len(),
    {
        self.remains
    }

    /// Emits the next bit (0 or 1), or `None` once all bits have been emitted.
    pub fn next(&mut self) -> (r: Option<u8>)
        requires
            old(self).wf(),
        ensures
            final(self).wf(),
            old(self)@.len() == 0 ==> r.is_none() && final(self)@ == old(self)@,
            old(self)@.len() > 0 ==> r == Some(old(self)@[0]) && final(self)@ == old(
                self,
            )@.drop_first(),
    {
        if self.remains == 0 {
            return None;
        }
        let set = self.acc.top_bit_set();
        self.acc = self.acc.shifted_left();
        self.remains = self.remains - 1;
        assert(self@ =~= old(self)@.drop_first());
        Some(
            if set {
                1
            } else {
                0
            },
        )
    }

    /// Drains the cursor into a vector of the remaining bits.
    pub fn to_vec(self) -> (r: Vec<u8>)
        requires
            self.wf(),
        ensures
            r@ == self@,
    {
        let mut it = self;
        let mut out: Vec<u8> = Vec::new();
        while it.remaining() > 0
            invariant
                it.wf(),
                out@ + it@ == self@,
            decreases it@.len(),
        {
            let ghost before = it@;
            let b = it.next();
            match b {
                Some(bit) => {
                    out.push(bit);
                    assert(out@ + it@ =~= self@) by {
                        assert(before =~= seq![bit] + it@);
                    }
                },
                None => {},
            }
        }
        assert(out@ =~= out@ + it@);
        out
    }
}

/// Every element of `msb_bits(v, 8)` for a byte `v` is the binary digit of `v`
/// of the matching weight, from `2^7` down to `2^0`.
pub proof fn lemma_byte_bits(v: u8)
    ensures
        msb_bits(v as u64, 8).len() == 8,
        forall|i: int|
            0 <= i < 8 ==> #[trigger] msb_bits(v as u64, 8)[i] as nat == (v as nat / pow2(
                (7 - i) as nat,
            )) % 2,
{
    assert forall|i: int| 0 <= i < 8 implies #[trigger] msb_bits(v as u64, 8)[i] as nat == (v as nat
        / pow2((7 - i) as nat)) % 2 by {
        let x = v as u64;
        let k = (7 - i) as u64;
        vstd::bits::lemma_u64_shr_is_div(x, k);
        let s = x >> k;
        assert((s & 1u64) == s % 2) by (bit_vector);
    }
}

/// Holds one value until it is turned into the cursor over its bits.
pub struct TypeIntoBitIteratorWrapper<T> {
    val: T,
}

impl<T> TypeIntoBitIteratorWrapper<T> {
    /// The value held.
    pub closed spec fn value(&self) -> T {
        self.val
    }

    pub fn new(val: T) -> (r: Self)
        ensures
            r.value() == val,
    {
        Self { val }
    }
}

impl<T: UnsignedWord> TypeIntoBitIteratorWrapper<T> {
    /// The cursor over the bits of the value held, most significant first.
    pub fn into_iter(self) -> (r: IntoBitsIterator<T>)
        ensures
            r.wf(),
            r@ == msb_bits(self.value().value_spec(), T::width_spec()),
    {
        IntoBitsIterator::new(self.val)
    }
}

/// A cursor that emits one value a fixed number of times.
pub struct RepeatCursor<T> {
    value: T,
    count_remaining: usize,
}

impl<T: Copy> View for RepeatCursor<T> {
    type V = Seq<T>;

    /// The copies that are still to come.
    closed spec fn view(&self) -> Seq<T> {
        Seq::new(self.count_remaining as nat, |i: int| self.value)
    }
}

impl<T: Copy> RepeatCursor<T> {
    /// A cursor over `count` copies of `value`.
    pub fn new(value: T, count: usize) -> (r: Self)
        ensures
            r@ == Seq::new(count as nat, |i: int| value),
    {
        let r = Self { value, count_remaining: count };
        assert(r@ =~= Seq::new(count as nat, |i: int| value));
        r
    }

    /// The number of copies still to come.
    pub fn remaining(&self) -> (r: usize)
        ensures
            r == self@.len(),
    {
        self.count_remaining
    }

    /// Emits the next copy, or `None` once all copies have been emitted.
    pub fn next(&mut self) -> (r: Option<T>)
        ensures
            old(self)@.len() == 0 ==> r.is_none() && final(self)@ == old(self)@,
            old(self)@.len() > 0 ==> r == Some(old(self)@[0]) && final(self)@ == old(
                self,
            )@.drop_first(),
    {
        if self.count_remaining == 0 {
            return None;
        }
        self.count_remaining = self.count_remaining - 1;
        assert(self@ =~= old(self)@.drop_first());
        Some(self.value)
    }

    /// Drains the cursor into a vector of the remaining copies.
    pub fn to_vec(self) -> (r: Vec<T>)
        ensures
            r@ == self@,
    {
        let mut it = self;
        let mut out: Vec<T> = Vec::new();
        while it.remaining() > 0
            invariant
                out@ + it@ == self@,
            decreases it@.len(),
        {
            let ghost before = it@;
            let c = it.next();
            match c {
                Some(v) => {
                    out.push(v);
                    assert(out@ + it@ =~= self@) by {
                        assert(before =~= seq![v] + it@);
                    }
                },
                None => {},
            }
        }
        assert(out@ =~= out@ + it@);
        out
    }
}

/// Holds a symbol and a count until they are turned into the cursor over the run.
pub struct RepeatNWrapper<T> {
    val: T,
    count: usize,
}

impl<T> RepeatNWrapper<T> {
    /// The symbol held.
    pub closed spec fn value(&self) -> T {
        self.val
    }

    /// The length of the run.
    pub closed spec fn count(&self) -> nat {
        self.count as nat
    }

    pub fn new(val: T, count: usize) -> (r: Self)
        ensures
            r.value() == val,
            r.count() == count,
    {
        Self { val, count }
    }
}

impl<T: Copy> RepeatNWrapper<T> {
    /// The cursor over exactly `count` copies of the symbol; empty when `count` is zero.
    pub fn into_iter(self) -> (r: RepeatCursor<T>)
        ensures
            r@ == Seq::new(self.count(), |i: int| self.value()),
            r@.len() == self.count(),
            forall|i: int| 0 <= i < r@.len() ==> r@[i] == self.value(),
    {
        RepeatCursor::new(self.val, self.count)
    }
}

} // verus!
