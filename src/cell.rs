//! The machine word: an unsigned integer of a fixed width with wrapping
//! arithmetic.
use vstd::prelude::*;

verus! {

/// Incrementing the largest value gives zero, and decrementing zero gives
/// the largest value, whatever the width.
pub proof fn lemma_wrap_around<T: Cell>()
    ensures
        wrap_inc((T::modulus() - 1) as nat, T::modulus()) == 0,
        wrap_dec(0, T::modulus()) == T::modulus() - 1,
{
    T::lemma_modulus_bounds();
    let m = T::modulus();
    assert((m - 1 + 1) as nat % m == 0) by {
        vstd::arithmetic::div_mod::lemma_mod_self_0(m as int);
    }
    assert((0 + m - 1) as nat % m == m - 1) by {
        vstd::arithmetic::div_mod::lemma_small_mod((m - 1) as nat, m);
    }
}

/// `v + 1` in the ring of `m` values.
pub open spec fn wrap_inc(v: nat, m: nat) -> nat {
    ((v + 1) % m) as nat
}

/// `v - 1` in the ring of `m` values.
pub open spec fn wrap_dec(v: nat, m: nat) -> nat {
    (v + m - 1) as nat % m
}

/// An unsigned integer of a fixed width, used for the accumulator, the stack
/// slots and the jump-table keys.
pub trait Cell: Sized + Copy {
    /// The number held.
    spec fn value(&self) -> nat;

    /// How many values the width holds: `2^width`.
    spec fn modulus() -> nat;

    proof fn lemma_modulus_bounds()
        ensures
            0 < Self::modulus() <= 0x1_0000_0000_0000_0000,
    ;

    proof fn lemma_value_bounds(&self)
        ensures
            self.value() < Self::modulus(),
    ;

    fn zero() -> (r: Self)
        ensures
            r.value() == 0,
    ;

    fn wrapping_inc(&self) -> (r: Self)
        ensures
            r.value() == wrap_inc(self.value(), Self::modulus()),
    ;

    fn wrapping_dec(&self) -> (r: Self)
        ensures
            r.value() == wrap_dec(self.value(), Self::modulus()),
    ;

    fn same_as(&self, other: &Self) -> (r: bool)
        ensures
            r == (self.value() == other.value()),
    ;

    /// The value widened to 64 bits.
    fn key(&self) -> (r: u64)
        ensures
            r as nat == self.value(),
    ;

    /// The lowest eight bits.
    fn low_byte(&self) -> (r: u8)
        ensures
            r as nat == self.value() % 256,
    ;
}

impl Cell for u8 {
    open spec fn value(&self) -> nat {
        *self as nat
    }

    open spec fn modulus() -> nat {
        0x100
    }

    proof fn lemma_modulus_bounds() {
    }

    proof fn lemma_value_bounds(&self) {
    }

    fn zero() -> (r: u8) {
        0
    }

    fn wrapping_inc(&self) -> (r: u8) {
        self.wrapping_add(1)
    }

    fn wrapping_dec(&self) -> (r: u8) {
        self.wrapping_sub(1)
    }

    fn same_as(&self, other: &u8) -> (r: bool) {
        *self == *other
    }

    fn key(&self) -> (r: u64) {
        *self as u64
    }

    fn low_byte(&self) -> (r: u8) {
        *self
    }
}

impl Cell for u16 {
    open spec fn value(&self) -> nat {
        *self as nat
    }

    open spec fn modulus() -> nat {
        0x1_0000
    }

    proof fn lemma_modulus_bounds() {
    }

    proof fn lemma_value_bounds(&self) {
    }

    fn zero() -> (r: u16) {
        0
    }

    fn wrapping_inc(&self) -> (r: u16) {
        self.wrapping_add(1)
    }

    fn wrapping_dec(&self) -> (r: u16) {
        self.wrapping_sub(1)
    }

    fn same_as(&self, other: &u16) -> (r: bool) {
        *self == *other
    }

    fn key(&self) -> (r: u64) {
        *self as u64
    }

    fn low_byte(&self) -> (r: u8) {
        (*self % 256) as u8
    }
}

impl Cell for u32 {
    open spec fn value(&self) -> nat {
        *self as nat
    }

    open spec fn modulus() -> nat {
        0x1_0000_0000
    }

    proof fn lemma_modulus_bounds() {
    }

    proof fn lemma_value_bounds(&self) {
    }

    fn zero() -> (r: u32) {
        0
    }

    fn wrapping_inc(&self) -> (r: u32) {
        self.wrapping_add(1)
    }

    fn wrapping_dec(&self) -> (r: u32) {
        self.wrapping_sub(1)
    }

    fn same_as(&self, other: &u32) -> (r: bool) {
        *self == *other
    }

    fn key(&self) -> (r: u64) {
        *self as u64
    }

    fn low_byte(&self) -> (r: u8) {
        (*self % 256) as u8
    }
}

impl Cell for u64 {
    open spec fn value(&self) -> nat {
        *self as nat
    }

    open spec fn modulus() -> nat {
        0x1_0000_0000_0000_0000
    }

    proof fn lemma_modulus_bounds() {
    }

    proof fn lemma_value_bounds(&self) {
    }

    fn zero() -> (r: u64) {
        0
    }

    fn wrapping_inc(&self) -> (r: u64) {
        self.wrapping_add(1)
    }

    fn wrapping_dec(&self) -> (r: u64) {
        self.wrapping_sub(1)
    }

    fn same_as(&self, other: &u64) -> (r: bool) {
        *self == *other
    }

    fn key(&self) -> (r: u64) {
        *self
    }

    fn low_byte(&self) -> (r: u8) {
        (*self % 256) as u8
    }
}

} // verus!
