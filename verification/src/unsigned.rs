//! [`Integral`] for the unsigned machine integers.
//!
//! Each method is the machine operation of the same name.

use crate::integral::{lemma_trunc_div_rem, Integral};
use vstd::prelude::*;

verus! {

impl Integral for u8 {
    open spec fn as_int(self) -> int {
        self as int
    }

    open spec fn min_int() -> int {
        0
    }

    open spec fn max_int() -> int {
        u8::MAX as int
    }

    proof fn lemma_in_range(self) {
    }

    proof fn lemma_limits() {
    }

    proof fn lemma_as_int_injective(self, other: Self) {
    }

    fn from_digit(d: u8) -> (r: Self) {
        d as u8
    }

    fn max_value() -> (r: Self) {
        u8::MAX
    }

    fn checked_add(self, rhs: Self) -> (r: Option<Self>) {
        self.checked_add(rhs)
    }

    fn checked_sub(self, rhs: Self) -> (r: Option<Self>) {
        self.checked_sub(rhs)
    }

    fn checked_mul(self, rhs: Self) -> (r: Option<Self>) {
        self.checked_mul(rhs)
    }

    fn checked_div(self, rhs: Self) -> (r: Option<Self>) {
        self.checked_div(rhs)
    }

    fn checked_rem(self, rhs: Self) -> (r: Option<Self>) {
        proof {
            if rhs != 0 {
                lemma_trunc_div_rem(self as int, rhs as int);
            }
        }
        self.checked_rem(rhs)
    }

    fn less_than(self, rhs: Self) -> (r: bool) {
        self < rhs
    }

    fn equals(self, rhs: Self) -> (r: bool) {
        self == rhs
    }
}

impl Integral for u16 {
    open spec fn as_int(self) -> int {
        self as int
    }

    open spec fn min_int() -> int {
        0
    }

    open spec fn max_int() -> int {
        u16::MAX as int
    }

    proof fn lemma_in_range(self) {
    }

    proof fn lemma_limits() {
    }

    proof fn lemma_as_int_injective(self, other: Self) {
    }

    fn from_digit(d: u8) -> (r: Self) {
        d as u16
    }

    fn max_value() -> (r: Self) {
        u16::MAX
    }

    fn checked_add(self, rhs: Self) -> (r: Option<Self>) {
        self.checked_add(rhs)
    }

    fn checked_sub(self, rhs: Self) -> (r: Option<Self>) {
        self.checked_sub(rhs)
    }

    fn checked_mul(self, rhs: Self) -> (r: Option<Self>) {
        self.checked_mul(rhs)
    }

    fn checked_div(self, rhs: Self) -> (r: Option<Self>) {
        self.checked_div(rhs)
    }

    fn checked_rem(self, rhs: Self) -> (r: Option<Self>) {
        proof {
            if rhs != 0 {
                lemma_trunc_div_rem(self as int, rhs as int);
            }
        }
        self.checked_rem(rhs)
    }

    fn less_than(self, rhs: Self) -> (r: bool) {
        self < rhs
    }

    fn equals(self, rhs: Self) -> (r: bool) {
        self == rhs
    }
}

impl Integral for u32 {
    open spec fn as_int(self) -> int {
        self as int
    }

    open spec fn min_int() -> int {
        0
    }

    open spec fn max_int() -> int {
        u32::MAX as int
    }

    proof fn lemma_in_range(self) {
    }

    proof fn lemma_limits() {
    }

    proof fn lemma_as_int_injective(self, other: Self) {
    }

    fn from_digit(d: u8) -> (r: Self) {
        d as u32
    }

    fn max_value() -> (r: Self) {
        u32::MAX
    }

    fn checked_add(self, rhs: Self) -> (r: Option<Self>) {
        self.checked_add(rhs)
    }

    fn checked_sub(self, rhs: Self) -> (r: Option<Self>) {
        self.checked_sub(rhs)
    }

    fn checked_mul(self, rhs: Self) -> (r: Option<Self>) {
        self.checked_mul(rhs)
    }

    fn checked_div(self, rhs: Self) -> (r: Option<Self>) {
        self.checked_div(rhs)
    }

    fn checked_rem(self, rhs: Self) -> (r: Option<Self>) {
        proof {
            if rhs != 0 {
                lemma_trunc_div_rem(self as int, rhs as int);
            }
        }
        self.checked_rem(rhs)
    }

    fn less_than(self, rhs: Self) -> (r: bool) {
        self < rhs
    }

    fn equals(self, rhs: Self) -> (r: bool) {
        self == rhs
    }
}

impl Integral for u64 {
    open spec fn as_int(self) -> int {
        self as int
    }

    open spec fn min_int() -> int {
        0
    }

    open spec fn max_int() -> int {
        u64::MAX as int
    }

    proof fn lemma_in_range(self) {
    }

    proof fn lemma_limits() {
    }

    proof fn lemma_as_int_injective(self, other: Self) {
    }

    fn from_digit(d: u8) -> (r: Self) {
        d as u64
    }

    fn max_value() -> (r: Self) {
        u64::MAX
    }

    fn checked_add(self, rhs: Self) -> (r: Option<Self>) {
        self.checked_add(rhs)
    }

    fn checked_sub(self, rhs: Self) -> (r: Option<Self>) {
        self.checked_sub(rhs)
    }

    fn checked_mul(self, rhs: Self) -> (r: Option<Self>) {
        self.checked_mul(rhs)
    }

    fn checked_div(self, rhs: Self) -> (r: Option<Self>) {
        self.checked_div(rhs)
    }

    fn checked_rem(self, rhs: Self) -> (r: Option<Self>) {
        proof {
            if rhs != 0 {
                lemma_trunc_div_rem(self as int, rhs as int);
            }
        }
        self.checked_rem(rhs)
    }

    fn less_than(self, rhs: Self) -> (r: bool) {
        self < rhs
    }

    fn equals(self, rhs: Self) -> (r: bool) {
        self == rhs
    }
}

impl Integral for u128 {
    open spec fn as_int(self) -> int {
        self as int
    }

    open spec fn min_int() -> int {
        0
    }

    open spec fn max_int() -> int {
        u128::MAX as int
    }

    proof fn lemma_in_range(self) {
    }

    proof fn lemma_limits() {
    }

    proof fn lemma_as_int_injective(self, other: Self) {
    }

    fn from_digit(d: u8) -> (r: Self) {
        d as u128
    }

    fn max_value() -> (r: Self) {
        u128::MAX
    }

    fn checked_add(self, rhs: Self) -> (r: Option<Self>) {
        self.checked_add(rhs)
    }

    fn checked_sub(self, rhs: Self) -> (r: Option<Self>) {
        self.checked_sub(rhs)
    }

    fn checked_mul(self, rhs: Self) -> (r: Option<Self>) {
        self.checked_mul(rhs)
    }

    fn checked_div(self, rhs: Self) -> (r: Option<Self>) {
        self.checked_div(rhs)
    }

    fn checked_rem(self, rhs: Self) -> (r: Option<Self>) {
        proof {
            if rhs != 0 {
                lemma_trunc_div_rem(self as int, rhs as int);
            }
        }
        self.checked_rem(rhs)
    }

    fn less_than(self, rhs: Self) -> (r: bool) {
        self < rhs
    }

    fn equals(self, rhs: Self) -> (r: bool) {
        self == rhs
    }
}

impl Integral for usize {
    open spec fn as_int(self) -> int {
        self as int
    }

    open spec fn min_int() -> int {
        0
    }

    open spec fn max_int() -> int {
        usize::MAX as int
    }

    proof fn lemma_in_range(self) {
    }

    proof fn lemma_limits() {
    }

    proof fn lemma_as_int_injective(self, other: Self) {
    }

    fn from_digit(d: u8) -> (r: Self) {
        d as usize
    }

    fn max_value() -> (r: Self) {
        usize::MAX
    }

    fn checked_add(self, rhs: Self) -> (r: Option<Self>) {
        self.checked_add(rhs)
    }

    fn checked_sub(self, rhs: Self) -> (r: Option<Self>) {
        self.checked_sub(rhs)
    }

    fn checked_mul(self, rhs: Self) -> (r: Option<Self>) {
        self.checked_mul(rhs)
    }

    fn checked_div(self, rhs: Self) -> (r: Option<Self>) {
        self.checked_div(rhs)
    }

    fn checked_rem(self, rhs: Self) -> (r: Option<Self>) {
        proof {
            if rhs != 0 {
                lemma_trunc_div_rem(self as int, rhs as int);
            }
        }
        self.checked_rem(rhs)
    }

    fn less_than(self, rhs: Self) -> (r: bool) {
        self < rhs
    }

    fn equals(self, rhs: Self) -> (r: bool) {
        self == rhs
    }
}

} // verus!
