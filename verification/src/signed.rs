//! [`Integral`] and [`SignedIntegral`] for the signed machine integers.
//!
//! Each method is the machine operation of the same name. The one exception
//! is the remainder by minus one, which is zero for every dividend, the
//! least one included.

use crate::integral::{lemma_trunc_div_rem, Integral, SignedIntegral};
use vstd::prelude::*;

verus! {

impl Integral for i8 {
    open spec fn as_int(self) -> int {
        self as int
    }

    open spec fn min_int() -> int {
        i8::MIN as int
    }

    open spec fn max_int() -> int {
        i8::MAX as int
    }

    proof fn lemma_in_range(self) {
    }

    proof fn lemma_limits() {
    }

    proof fn lemma_as_int_injective(self, other: Self) {
    }

    fn from_digit(d: u8) -> (r: Self) {
        d as i8
    }

    fn max_value() -> (r: Self) {
        i8::MAX
    }

    fn checked_add(self, rhs: Self) -> (r: Option<Self>) {
        self.checked_add(rhs)
    }

    fn checked_sub(self, rhs: Self) -> (r: Option<Self>) {
        self.checked_sub(rhs)
    }

    fn checked_mul(self, rhs: Self) -> (r: Option<Self>) {
        self.checked_mul(rhs)
    }

    fn checked_div(self, rhs: Self) -> (r: Option<Self>) {
        self.checked_div(rhs)
    }

    fn checked_rem(self, rhs: Self) -> (r: Option<Self>) {
        proof {
            if rhs != 0 {
                lemma_trunc_div_rem(self as int, rhs as int);
            }
        }
        if rhs == -1 {
            Some(0)
        } else {
            self.checked_rem(rhs)
        }
    }

    fn less_than(self, rhs: Self) -> (r: bool) {
        self < rhs
    }

    fn equals(self, rhs: Self) -> (r: bool) {
        self == rhs
    }
}

impl SignedIntegral for i8 {
    proof fn lemma_signed() {
    }
}

impl Integral for i16 {
    open spec fn as_int(self) -> int {
        self as int
    }

    open spec fn min_int() -> int {
        i16::MIN as int
    }

    open spec fn max_int() -> int {
        i16::MAX as int
    }

    proof fn lemma_in_range(self) {
    }

    proof fn lemma_limits() {
    }

    proof fn lemma_as_int_injective(self, other: Self) {
    }

    fn from_digit(d: u8) -> (r: Self) {
        d as i16
    }

    fn max_value() -> (r: Self) {
        i16::MAX
    }

    fn checked_add(self, rhs: Self) -> (r: Option<Self>) {
        self.checked_add(rhs)
    }

    fn checked_sub(self, rhs: Self) -> (r: Option<Self>) {
        self.checked_sub(rhs)
    }

    fn checked_mul(self, rhs: Self) -> (r: Option<Self>) {
        self.checked_mul(rhs)
    }

    fn checked_div(self, rhs: Self) -> (r: Option<Self>) {
        self.checked_div(rhs)
    }

    fn checked_rem(self, rhs: Self) -> (r: Option<Self>) {
        proof {
            if rhs != 0 {
                lemma_trunc_div_rem(self as int, rhs as int);
            }
        }
        if rhs == -1 {
            Some(0)
        } else {
            self.checked_rem(rhs)
        }
    }

    fn less_than(self, rhs: Self) -> (r: bool) {
        self < rhs
    }

    fn equals(self, rhs: Self) -> (r: bool) {
        self == rhs
    }
}

impl SignedIntegral for i16 {
    proof fn lemma_signed() {
    }
}

impl Integral for i32 {
    open spec fn as_int(self) -> int {
        self as int
    }

    open spec fn min_int() -> int {
        i32::MIN as int
    }

    open spec fn max_int() -> int {
        i32::MAX as int
    }

    proof fn lemma_in_range(self) {
    }

    proof fn lemma_limits() {
    }

    proof fn lemma_as_int_injective(self, other: Self) {
    }

    fn from_digit(d: u8) -> (r: Self) {
        d as i32
    }

    fn max_value() -> (r: Self) {
        i32::MAX
    }

    fn checked_add(self, rhs: Self) -> (r: Option<Self>) {
        self.checked_add(rhs)
    }

    fn checked_sub(self, rhs: Self) -> (r: Option<Self>) {
        self.checked_sub(rhs)
    }

    fn checked_mul(self, rhs: Self) -> (r: Option<Self>) {
        self.checked_mul(rhs)
    }

    fn checked_div(self, rhs: Self) -> (r: Option<Self>) {
        self.checked_div(rhs)
    }

    fn checked_rem(self, rhs: Self) -> (r: Option<Self>) {
        proof {
            if rhs != 0 {
                lemma_trunc_div_rem(self as int, rhs as int);
            }
        }
        if rhs == -1 {
            Some(0)
        } else {
            self.checked_rem(rhs)
        }
    }

    fn less_than(self, rhs: Self) -> (r: bool) {
        self < rhs
    }

    fn equals(self, rhs: Self) -> (r: bool) {
        self == rhs
    }
}

impl SignedIntegral for i32 {
    proof fn lemma_signed() {
    }
}

impl Integral for i64 {
    open spec fn as_int(self) -> int {
        self as int
    }

    open spec fn min_int() -> int {
        i64::MIN as int
    }

    open spec fn max_int() -> int {
        i64::MAX as int
    }

    proof fn lemma_in_range(self) {
    }

    proof fn lemma_limits() {
    }

    proof fn lemma_as_int_injective(self, other: Self) {
    }

    fn from_digit(d: u8) -> (r: Self) {
        d as i64
    }

    fn max_value() -> (r: Self) {
        i64::MAX
    }

    fn checked_add(self, rhs: Self) -> (r: Option<Self>) {
        self.checked_add(rhs)
    }

    fn checked_sub(self, rhs: Self) -> (r: Option<Self>) {
        self.checked_sub(rhs)
    }

    fn checked_mul(self, rhs: Self) -> (r: Option<Self>) {
        self.checked_mul(rhs)
    }

    fn checked_div(self, rhs: Self) -> (r: Option<Self>) {
        self.checked_div(rhs)
    }

    fn checked_rem(self, rhs: Self) -> (r: Option<Self>) {
        proof {
            if rhs != 0 {
                lemma_trunc_div_rem(self as int, rhs as int);
            }
        }
        if rhs == -1 {
            Some(0)
        } else {
            self.checked_rem(rhs)
        }
    }

    fn less_than(self, rhs: Self) -> (r: bool) {
        self < rhs
    }

    fn equals(self, rhs: Self) -> (r: bool) {
        self == rhs
    }
}

impl SignedIntegral for i64 {
    proof fn lemma_signed() {
    }
}

impl Integral for i128 {
    open spec fn as_int(self) -> int {
        self as int
    }

    open spec fn min_int() -> int {
        i128::MIN as int
    }

    open spec fn max_int() -> int {
        i128::MAX as int
    }

    proof fn lemma_in_range(self) {
    }

    proof fn lemma_limits() {
    }

    proof fn lemma_as_int_injective(self, other: Self) {
    }

    fn from_digit(d: u8) -> (r: Self) {
        d as i128
    }

    fn max_value() -> (r: Self) {
        i128::MAX
    }

    fn checked_add(self, rhs: Self) -> (r: Option<Self>) {
        self.checked_add(rhs)
    }

    fn checked_sub(self, rhs: Self) -> (r: Option<Self>) {
        self.checked_sub(rhs)
    }

    fn checked_mul(self, rhs: Self) -> (r: Option<Self>) {
        self.checked_mul(rhs)
    }

    fn checked_div(self, rhs: Self) -> (r: Option<Self>) {
        self.checked_div(rhs)
    }

    fn checked_rem(self, rhs: Self) -> (r: Option<Self>) {
        proof {
            if rhs != 0 {
                lemma_trunc_div_rem(self as int, rhs as int);
            }
        }
        if rhs == -1 {
            Some(0)
        } else {
            self.checked_rem(rhs)
        }
    }

    fn less_than(self, rhs: Self) -> (r: bool) {
        self < rhs
    }

    fn equals(self, rhs: Self) -> (r: bool) {
        self == rhs
    }
}

impl SignedIntegral for i128 {
    proof fn lemma_signed() {
    }
}

impl Integral for isize {
    open spec fn as_int(self) -> int {
        self as int
    }

    open spec fn min_int() -> int {
        isize::MIN as int
    }

    open spec fn max_int() -> int {
        isize::MAX as int
    }

    proof fn lemma_in_range(self) {
    }

    proof fn lemma_limits() {
    }

    proof fn lemma_as_int_injective(self, other: Self) {
    }

    fn from_digit(d: u8) -> (r: Self) {
        d as isize
    }

    fn max_value() -> (r: Self) {
        isize::MAX
    }

    fn checked_add(self, rhs: Self) -> (r: Option<Self>) {
        self.checked_add(rhs)
    }

    fn checked_sub(self, rhs: Self) -> (r: Option<Self>) {
        self.checked_sub(rhs)
    }

    fn checked_mul(self, rhs: Self) -> (r: Option<Self>) {
        self.checked_mul(rhs)
    }

    fn checked_div(self, rhs: Self) -> (r: Option<Self>) {
        self.checked_div(rhs)
    }

    fn checked_rem(self, rhs: Self) -> (r: Option<Self>) {
        proof {
            if rhs != 0 {
                lemma_trunc_div_rem(self as int, rhs as int);
            }
        }
        if rhs == -1 {
            Some(0)
        } else {
            self.checked_rem(rhs)
        }
    }

    fn less_than(self, rhs: Self) -> (r: bool) {
        self < rhs
    }

    fn equals(self, rhs: Self) -> (r: bool) {
        self == rhs
    }
}

impl SignedIntegral for isize {
    proof fn lemma_signed() {
    }
}

} // verus!
