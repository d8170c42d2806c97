//! The element types that come with the library, one registration each.
//!
//! The integers and `bool` are trivial: a set takes them by value as well
//! as by reference. Text strings and byte buffers are not: a set stores a
//! copy of the value it is shown.

use crate::local::LocalElement;
use crate::qset::TrivialElement;
use vstd::prelude::*;

verus! {

/// Sets of truth values.
impl LocalElement for bool {
    fn same(&self, other: &Self) -> (equal: bool) {
        *self == *other
    }

    fn duplicate(&self) -> (copy: Self) {
        *self
    }
}

impl TrivialElement for bool {
}

/// Sets of 8-bit signed integers.
impl LocalElement for i8 {
    fn same(&self, other: &Self) -> (equal: bool) {
        *self == *other
    }

    fn duplicate(&self) -> (copy: Self) {
        *self
    }
}

impl TrivialElement for i8 {
}

/// Sets of 16-bit signed integers.
impl LocalElement for i16 {
    fn same(&self, other: &Self) -> (equal: bool) {
        *self == *other
    }

    fn duplicate(&self) -> (copy: Self) {
        *self
    }
}

impl TrivialElement for i16 {
}

/// Sets of 32-bit signed integers.
impl LocalElement for i32 {
    fn same(&self, other: &Self) -> (equal: bool) {
        *self == *other
    }

    fn duplicate(&self) -> (copy: Self) {
        *self
    }
}

impl TrivialElement for i32 {
}

/// Sets of 64-bit signed integers.
impl LocalElement for i64 {
    fn same(&self, other: &Self) -> (equal: bool) {
        *self == *other
    }

    fn duplicate(&self) -> (copy: Self) {
        *self
    }
}

impl TrivialElement for i64 {
}

/// Sets of 8-bit unsigned integers.
impl LocalElement for u8 {
    fn same(&self, other: &Self) -> (equal: bool) {
        *self == *other
    }

    fn duplicate(&self) -> (copy: Self) {
        *self
    }
}

impl TrivialElement for u8 {
}

/// Sets of 16-bit unsigned integers.
impl LocalElement for u16 {
    fn same(&self, other: &Self) -> (equal: bool) {
        *self == *other
    }

    fn duplicate(&self) -> (copy: Self) {
        *self
    }
}

impl TrivialElement for u16 {
}

/// Sets of 32-bit unsigned integers.
impl LocalElement for u32 {
    fn same(&self, other: &Self) -> (equal: bool) {
        *self == *other
    }

    fn duplicate(&self) -> (copy: Self) {
        *self
    }
}

impl TrivialElement for u32 {
}

/// Sets of 64-bit unsigned integers.
impl LocalElement for u64 {
    fn same(&self, other: &Self) -> (equal: bool) {
        *self == *other
    }

    fn duplicate(&self) -> (copy: Self) {
        *self
    }
}

impl TrivialElement for u64 {
}

/// Sets of text strings. Two strings are the same element when they hold
/// the same characters.
impl LocalElement for String {
    fn same(&self, other: &Self) -> (equal: bool) {
        *self == *other
    }

    fn duplicate(&self) -> (copy: Self) {
        self.clone()
    }
}

/// Sets of byte buffers. Two buffers are the same element when they hold
/// the same bytes.
impl LocalElement for Vec<u8> {
    fn same(&self, other: &Self) -> (equal: bool) {
        let equal = *self == *other;
        proof {
            if equal {
                assert(self@ =~= other@);
            }
        }
        equal
    }

    fn duplicate(&self) -> (copy: Self) {
        let copy = self.clone();
        assert(copy@ =~= self@);
        copy
    }
}

} // verus!
