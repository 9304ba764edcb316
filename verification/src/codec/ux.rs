//! Integers whose width is not a power of two: 24, 40, 48 and 56 bits.
//!
//! In memory such a number sits in the next wider native integer; on the
//! wire it takes exactly its own number of bytes, big-endian. A value never
//! holds a number outside the range of its declared width, so the bits above
//! it are all zero for an unsigned type and all equal to the sign for a
//! signed one.

use crate::codec::endian::lemma_pow256_values;
use crate::codec::number::WireInt;
use vstd::prelude::*;
use vstd::std_specs::convert::FromSpecImpl;

verus! {

/// A signed integer of 24 bits.
#[allow(non_camel_case_types)]
#[derive(Debug, Clone, Copy, PartialEq, Eq, PartialOrd, Ord, Hash)]
pub struct i24(i32);

impl i24 {
    #[verifier::type_invariant]
    spec fn in_range(self) -> bool {
        -0x80_0000 <= self.0 <= 0x7f_ffff
    }

    /// The value that stands for `value`, if `value` lies in the range of the
    /// type.
    pub fn try_new(value: i32) -> (r: Option<Self>)
        ensures
            r == (if -0x80_0000 <= value <= 0x7f_ffff {
                Some(Self::of_value(value as int))
            } else {
                None
            }),
    {
        if value >= -0x80_0000 && value <= 0x7f_ffff {
            Some(Self::new(value))
        } else {
            None
        }
    }

    /// The value that stands for `value`, which has to lie in the range of
    /// the type.
    pub fn new(value: i32) -> (x: Self)
        requires
            -0x80_0000 <= value <= 0x7f_ffff,
        ensures
            x == Self::of_value(value as int),
            x.value() == value,
            x.wf(),
    {
        i24(value)
    }

    /// The number that the value stands for.
    pub fn get(self) -> (value: i32)
        ensures
            value == self.value(),
            self.wf(),
            -0x80_0000 <= value <= 0x7f_ffff,
    {
        proof {
            use_type_invariant(&self);
        }
        self.0
    }

    /// The least value of the type.
    pub fn min_value() -> (x: Self)
        ensures
            x.value() == -0x80_0000,
            x.wf(),
    {
        i24(-0x80_0000)
    }

    /// The greatest value of the type.
    pub fn max_value() -> (x: Self)
        ensures
            x.value() == 0x7f_ffff,
            x.wf(),
    {
        i24(0x7f_ffff)
    }
}

impl From<i24> for i32 {
    fn from(x: i24) -> (value: i32) {
        x.get()
    }
}

impl FromSpecImpl<i24> for i32 {
    open spec fn obeys_from_spec() -> bool {
        true
    }

    open spec fn from_spec(x: i24) -> i32 {
        x.value() as i32
    }
}

impl WireInt for i24 {
    open spec fn width() -> nat {
        3
    }

    open spec fn signed() -> bool {
        true
    }

    closed spec fn value(self) -> int {
        self.0 as int
    }

    closed spec fn of_value(v: int) -> Self {
        i24(v as i32)
    }

    closed spec fn wf(self) -> bool {
        self.in_range()
    }

    proof fn lemma_width() {
    }

    proof fn lemma_value(x: Self) {
        lemma_pow256_values();
    }

    proof fn lemma_of_value(v: int) {
        lemma_pow256_values();
    }

    fn byte_width() -> (w: usize) {
        3
    }

    fn is_signed() -> (s: bool) {
        true
    }

    fn to_raw(&self) -> (raw: u128) {
        proof {
            use_type_invariant(self);
            lemma_pow256_values();
        }
        if self.0 < 0 {
            (self.0 as i128 + 0x100_0000) as u128
        } else {
            self.0 as u128
        }
    }

    fn from_raw(raw: u128) -> (x: Self) {
        proof {
            lemma_pow256_values();
        }
        if raw >= 0x80_0000 {
            i24((raw as i128 - 0x100_0000) as i32)
        } else {
            i24(raw as i32)
        }
    }
}

/// An unsigned integer of 24 bits.
#[allow(non_camel_case_types)]
#[derive(Debug, Clone, Copy, PartialEq, Eq, PartialOrd, Ord, Hash)]
pub struct u24(u32);

impl u24 {
    #[verifier::type_invariant]
    spec fn in_range(self) -> bool {
        self.0 <= 0xff_ffff
    }

    /// The value that stands for `value`, if `value` lies in the range of the
    /// type.
    pub fn try_new(value: u32) -> (r: Option<Self>)
        ensures
            r == (if value <= 0xff_ffff {
                Some(Self::of_value(value as int))
            } else {
                None
            }),
    {
        if value <= 0xff_ffff {
            Some(Self::new(value))
        } else {
            None
        }
    }

    /// The value that stands for `value`, which has to lie in the range of
    /// the type.
    pub fn new(value: u32) -> (x: Self)
        requires
            value <= 0xff_ffff,
        ensures
            x == Self::of_value(value as int),
            x.value() == value,
            x.wf(),
    {
        u24(value)
    }

    /// The number that the value stands for.
    pub fn get(self) -> (value: u32)
        ensures
            value == self.value(),
            self.wf(),
            value <= 0xff_ffff,
    {
        proof {
            use_type_invariant(&self);
        }
        self.0
    }

    /// The least value of the type.
    pub fn min_value() -> (x: Self)
        ensures
            x.value() == 0,
            x.wf(),
    {
        u24(0)
    }

    /// The greatest value of the type.
    pub fn max_value() -> (x: Self)
        ensures
            x.value() == 0xff_ffff,
            x.wf(),
    {
        u24(0xff_ffff)
    }
}

impl From<u24> for u32 {
    fn from(x: u24) -> (value: u32) {
        x.get()
    }
}

impl FromSpecImpl<u24> for u32 {
    open spec fn obeys_from_spec() -> bool {
        true
    }

    open spec fn from_spec(x: u24) -> u32 {
        x.value() as u32
    }
}

impl WireInt for u24 {
    open spec fn width() -> nat {
        3
    }

    open spec fn signed() -> bool {
        false
    }

    closed spec fn value(self) -> int {
        self.0 as int
    }

    closed spec fn of_value(v: int) -> Self {
        u24(v as u32)
    }

    closed spec fn wf(self) -> bool {
        self.in_range()
    }

    proof fn lemma_width() {
    }

    proof fn lemma_value(x: Self) {
        lemma_pow256_values();
    }

    proof fn lemma_of_value(v: int) {
        lemma_pow256_values();
    }

    fn byte_width() -> (w: usize) {
        3
    }

    fn is_signed() -> (s: bool) {
        false
    }

    fn to_raw(&self) -> (raw: u128) {
        proof {
            use_type_invariant(self);
        }
        self.0 as u128
    }

    fn from_raw(raw: u128) -> (x: Self) {
        proof {
            lemma_pow256_values();
        }
        u24(raw as u32)
    }
}

/// A signed integer of 40 bits.
#[allow(non_camel_case_types)]
#[derive(Debug, Clone, Copy, PartialEq, Eq, PartialOrd, Ord, Hash)]
pub struct i40(i64);

impl i40 {
    #[verifier::type_invariant]
    spec fn in_range(self) -> bool {
        -0x80_0000_0000 <= self.0 <= 0x7f_ffff_ffff
    }

    /// The value that stands for `value`, if `value` lies in the range of the
    /// type.
    pub fn try_new(value: i64) -> (r: Option<Self>)
        ensures
            r == (if -0x80_0000_0000 <= value <= 0x7f_ffff_ffff {
                Some(Self::of_value(value as int))
            } else {
                None
            }),
    {
        if value >= -0x80_0000_0000 && value <= 0x7f_ffff_ffff {
            Some(Self::new(value))
        } else {
            None
        }
    }

    /// The value that stands for `value`, which has to lie in the range of
    /// the type.
    pub fn new(value: i64) -> (x: Self)
        requires
            -0x80_0000_0000 <= value <= 0x7f_ffff_ffff,
        ensures
            x == Self::of_value(value as int),
            x.value() == value,
            x.wf(),
    {
        i40(value)
    }

    /// The number that the value stands for.
    pub fn get(self) -> (value: i64)
        ensures
            value == self.value(),
            self.wf(),
            -0x80_0000_0000 <= value <= 0x7f_ffff_ffff,
    {
        proof {
            use_type_invariant(&self);
        }
        self.0
    }

    /// The least value of the type.
    pub fn min_value() -> (x: Self)
        ensures
            x.value() == -0x80_0000_0000,
            x.wf(),
    {
        i40(-0x80_0000_0000)
    }

    /// The greatest value of the type.
    pub fn max_value() -> (x: Self)
        ensures
            x.value() == 0x7f_ffff_ffff,
            x.wf(),
    {
        i40(0x7f_ffff_ffff)
    }
}

impl From<i40> for i64 {
    fn from(x: i40) -> (value: i64) {
        x.get()
    }
}

impl FromSpecImpl<i40> for i64 {
    open spec fn obeys_from_spec() -> bool {
        true
    }

    open spec fn from_spec(x: i40) -> i64 {
        x.value() as i64
    }
}

impl WireInt for i40 {
    open spec fn width() -> nat {
        5
    }

    open spec fn signed() -> bool {
        true
    }

    closed spec fn value(self) -> int {
        self.0 as int
    }

    closed spec fn of_value(v: int) -> Self {
        i40(v as i64)
    }

    closed spec fn wf(self) -> bool {
        self.in_range()
    }

    proof fn lemma_width() {
    }

    proof fn lemma_value(x: Self) {
        lemma_pow256_values();
    }

    proof fn lemma_of_value(v: int) {
        lemma_pow256_values();
    }

    fn byte_width() -> (w: usize) {
        5
    }

    fn is_signed() -> (s: bool) {
        true
    }

    fn to_raw(&self) -> (raw: u128) {
        proof {
            use_type_invariant(self);
            lemma_pow256_values();
        }
        if self.0 < 0 {
            (self.0 as i128 + 0x100_0000_0000) as u128
        } else {
            self.0 as u128
        }
    }

    fn from_raw(raw: u128) -> (x: Self) {
        proof {
            lemma_pow256_values();
        }
        if raw >= 0x80_0000_0000 {
            i40((raw as i128 - 0x100_0000_0000) as i64)
        } else {
            i40(raw as i64)
        }
    }
}

/// An unsigned integer of 40 bits.
#[allow(non_camel_case_types)]
#[derive(Debug, Clone, Copy, PartialEq, Eq, PartialOrd, Ord, Hash)]
pub struct u40(u64);

impl u40 {
    #[verifier::type_invariant]
    spec fn in_range(self) -> bool {
        self.0 <= 0xff_ffff_ffff
    }

    /// The value that stands for `value`, if `value` lies in the range of the
    /// type.
    pub fn try_new(value: u64) -> (r: Option<Self>)
        ensures
            r == (if value <= 0xff_ffff_ffff {
                Some(Self::of_value(value as int))
            } else {
                None
            }),
    {
        if value <= 0xff_ffff_ffff {
            Some(Self::new(value))
        } else {
            None
        }
    }

    /// The value that stands for `value`, which has to lie in the range of
    /// the type.
    pub fn new(value: u64) -> (x: Self)
        requires
            value <= 0xff_ffff_ffff,
        ensures
            x == Self::of_value(value as int),
            x.value() == value,
            x.wf(),
    {
        u40(value)
    }

    /// The number that the value stands for.
    pub fn get(self) -> (value: u64)
        ensures
            value == self.value(),
            self.wf(),
            value <= 0xff_ffff_ffff,
    {
        proof {
            use_type_invariant(&self);
        }
        self.0
    }

    /// The least value of the type.
    pub fn min_value() -> (x: Self)
        ensures
            x.value() == 0,
            x.wf(),
    {
        u40(0)
    }

    /// The greatest value of the type.
    pub fn max_value() -> (x: Self)
        ensures
            x.value() == 0xff_ffff_ffff,
            x.wf(),
    {
        u40(0xff_ffff_ffff)
    }
}

impl From<u40> for u64 {
    fn from(x: u40) -> (value: u64) {
        x.get()
    }
}

impl FromSpecImpl<u40> for u64 {
    open spec fn obeys_from_spec() -> bool {
        true
    }

    open spec fn from_spec(x: u40) -> u64 {
        x.value() as u64
    }
}

impl WireInt for u40 {
    open spec fn width() -> nat {
        5
    }

    open spec fn signed() -> bool {
        false
    }

    closed spec fn value(self) -> int {
        self.0 as int
    }

    closed spec fn of_value(v: int) -> Self {
        u40(v as u64)
    }

    closed spec fn wf(self) -> bool {
        self.in_range()
    }

    proof fn lemma_width() {
    }

    proof fn lemma_value(x: Self) {
        lemma_pow256_values();
    }

    proof fn lemma_of_value(v: int) {
        lemma_pow256_values();
    }

    fn byte_width() -> (w: usize) {
        5
    }

    fn is_signed() -> (s: bool) {
        false
    }

    fn to_raw(&self) -> (raw: u128) {
        proof {
            use_type_invariant(self);
        }
        self.0 as u128
    }

    fn from_raw(raw: u128) -> (x: Self) {
        proof {
            lemma_pow256_values();
        }
        u40(raw as u64)
    }
}

/// A signed integer of 48 bits.
#[allow(non_camel_case_types)]
#[derive(Debug, Clone, Copy, PartialEq, Eq, PartialOrd, Ord, Hash)]
pub struct i48(i64);

impl i48 {
    #[verifier::type_invariant]
    spec fn in_range(self) -> bool {
        -0x8000_0000_0000 <= self.0 <= 0x7fff_ffff_ffff
    }

    /// The value that stands for `value`, if `value` lies in the range of the
    /// type.
    pub fn try_new(value: i64) -> (r: Option<Self>)
        ensures
            r == (if -0x8000_0000_0000 <= value <= 0x7fff_ffff_ffff {
                Some(Self::of_value(value as int))
            } else {
                None
            }),
    {
        if value >= -0x8000_0000_0000 && value <= 0x7fff_ffff_ffff {
            Some(Self::new(value))
        } else {
            None
        }
    }

    /// The value that stands for `value`, which has to lie in the range of
    /// the type.
    pub fn new(value: i64) -> (x: Self)
        requires
            -0x8000_0000_0000 <= value <= 0x7fff_ffff_ffff,
        ensures
            x == Self::of_value(value as int),
            x.value() == value,
            x.wf(),
    {
        i48(value)
    }

    /// The number that the value stands for.
    pub fn get(self) -> (value: i64)
        ensures
            value == self.value(),
            self.wf(),
            -0x8000_0000_0000 <= value <= 0x7fff_ffff_ffff,
    {
        proof {
            use_type_invariant(&self);
        }
        self.0
    }

    /// The least value of the type.
    pub fn min_value() -> (x: Self)
        ensures
            x.value() == -0x8000_0000_0000,
            x.wf(),
    {
        i48(-0x8000_0000_0000)
    }

    /// The greatest value of the type.
    pub fn max_value() -> (x: Self)
        ensures
            x.value() == 0x7fff_ffff_ffff,
            x.wf(),
    {
        i48(0x7fff_ffff_ffff)
    }
}

impl From<i48> for i64 {
    fn from(x: i48) -> (value: i64) {
        x.get()
    }
}

impl FromSpecImpl<i48> for i64 {
    open spec fn obeys_from_spec() -> bool {
        true
    }

    open spec fn from_spec(x: i48) -> i64 {
        x.value() as i64
    }
}

impl WireInt for i48 {
    open spec fn width() -> nat {
        6
    }

    open spec fn signed() -> bool {
        true
    }

    closed spec fn value(self) -> int {
        self.0 as int
    }

    closed spec fn of_value(v: int) -> Self {
        i48(v as i64)
    }

    closed spec fn wf(self) -> bool {
        self.in_range()
    }

    proof fn lemma_width() {
    }

    proof fn lemma_value(x: Self) {
        lemma_pow256_values();
    }

    proof fn lemma_of_value(v: int) {
        lemma_pow256_values();
    }

    fn byte_width() -> (w: usize) {
        6
    }

    fn is_signed() -> (s: bool) {
        true
    }

    fn to_raw(&self) -> (raw: u128) {
        proof {
            use_type_invariant(self);
            lemma_pow256_values();
        }
        if self.0 < 0 {
            (self.0 as i128 + 0x1_0000_0000_0000) as u128
        } else {
            self.0 as u128
        }
    }

    fn from_raw(raw: u128) -> (x: Self) {
        proof {
            lemma_pow256_values();
        }
        if raw >= 0x8000_0000_0000 {
            i48((raw as i128 - 0x1_0000_0000_0000) as i64)
        } else {
            i48(raw as i64)
        }
    }
}

/// An unsigned integer of 48 bits.
#[allow(non_camel_case_types)]
#[derive(Debug, Clone, Copy, PartialEq, Eq, PartialOrd, Ord, Hash)]
pub struct u48(u64);

impl u48 {
    #[verifier::type_invariant]
    spec fn in_range(self) -> bool {
        self.0 <= 0xffff_ffff_ffff
    }

    /// The value that stands for `value`, if `value` lies in the range of the
    /// type.
    pub fn try_new(value: u64) -> (r: Option<Self>)
        ensures
            r == (if value <= 0xffff_ffff_ffff {
                Some(Self::of_value(value as int))
            } else {
                None
            }),
    {
        if value <= 0xffff_ffff_ffff {
            Some(Self::new(value))
        } else {
            None
        }
    }

    /// The value that stands for `value`, which has to lie in the range of
    /// the type.
    pub fn new(value: u64) -> (x: Self)
        requires
            value <= 0xffff_ffff_ffff,
        ensures
            x == Self::of_value(value as int),
            x.value() == value,
            x.wf(),
    {
        u48(value)
    }

    /// The number that the value stands for.
    pub fn get(self) -> (value: u64)
        ensures
            value == self.value(),
            self.wf(),
            value <= 0xffff_ffff_ffff,
    {
        proof {
            use_type_invariant(&self);
        }
        self.0
    }

    /// The least value of the type.
    pub fn min_value() -> (x: Self)
        ensures
            x.value() == 0,
            x.wf(),
    {
        u48(0)
    }

    /// The greatest value of the type.
    pub fn max_value() -> (x: Self)
        ensures
            x.value() == 0xffff_ffff_ffff,
            x.wf(),
    {
        u48(0xffff_ffff_ffff)
    }
}

impl From<u48> for u64 {
    fn from(x: u48) -> (value: u64) {
        x.get()
    }
}

impl FromSpecImpl<u48> for u64 {
    open spec fn obeys_from_spec() -> bool {
        true
    }

    open spec fn from_spec(x: u48) -> u64 {
        x.value() as u64
    }
}

impl WireInt for u48 {
    open spec fn width() -> nat {
        6
    }

    open spec fn signed() -> bool {
        false
    }

    closed spec fn value(self) -> int {
        self.0 as int
    }

    closed spec fn of_value(v: int) -> Self {
        u48(v as u64)
    }

    closed spec fn wf(self) -> bool {
        self.in_range()
    }

    proof fn lemma_width() {
    }

    proof fn lemma_value(x: Self) {
        lemma_pow256_values();
    }

    proof fn lemma_of_value(v: int) {
        lemma_pow256_values();
    }

    fn byte_width() -> (w: usize) {
        6
    }

    fn is_signed() -> (s: bool) {
        false
    }

    fn to_raw(&self) -> (raw: u128) {
        proof {
            use_type_invariant(self);
        }
        self.0 as u128
    }

    fn from_raw(raw: u128) -> (x: Self) {
        proof {
            lemma_pow256_values();
        }
        u48(raw as u64)
    }
}

/// A signed integer of 56 bits.
#[allow(non_camel_case_types)]
#[derive(Debug, Clone, Copy, PartialEq, Eq, PartialOrd, Ord, Hash)]
pub struct i56(i64);

impl i56 {
    #[verifier::type_invariant]
    spec fn in_range(self) -> bool {
        -0x80_0000_0000_0000 <= self.0 <= 0x7f_ffff_ffff_ffff
    }

    /// The value that stands for `value`, if `value` lies in the range of the
    /// type.
    pub fn try_new(value: i64) -> (r: Option<Self>)
        ensures
            r == (if -0x80_0000_0000_0000 <= value <= 0x7f_ffff_ffff_ffff {
                Some(Self::of_value(value as int))
            } else {
                None
            }),
    {
        if value >= -0x80_0000_0000_0000 && value <= 0x7f_ffff_ffff_ffff {
            Some(Self::new(value))
        } else {
            None
        }
    }

    /// The value that stands for `value`, which has to lie in the range of
    /// the type.
    pub fn new(value: i64) -> (x: Self)
        requires
            -0x80_0000_0000_0000 <= value <= 0x7f_ffff_ffff_ffff,
        ensures
            x == Self::of_value(value as int),
            x.value() == value,
            x.wf(),
    {
        i56(value)
    }

    /// The number that the value stands for.
    pub fn get(self) -> (value: i64)
        ensures
            value == self.value(),
            self.wf(),
            -0x80_0000_0000_0000 <= value <= 0x7f_ffff_ffff_ffff,
    {
        proof {
            use_type_invariant(&self);
        }
        self.0
    }

    /// The least value of the type.
    pub fn min_value() -> (x: Self)
        ensures
            x.value() == -0x80_0000_0000_0000,
            x.wf(),
    {
        i56(-0x80_0000_0000_0000)
    }

    /// The greatest value of the type.
    pub fn max_value() -> (x: Self)
        ensures
            x.value() == 0x7f_ffff_ffff_ffff,
            x.wf(),
    {
        i56(0x7f_ffff_ffff_ffff)
    }
}

impl From<i56> for i64 {
    fn from(x: i56) -> (value: i64) {
        x.get()
    }
}

impl FromSpecImpl<i56> for i64 {
    open spec fn obeys_from_spec() -> bool {
        true
    }

    open spec fn from_spec(x: i56) -> i64 {
        x.value() as i64
    }
}

impl WireInt for i56 {
    open spec fn width() -> nat {
        7
    }

    open spec fn signed() -> bool {
        true
    }

    closed spec fn value(self) -> int {
        self.0 as int
    }

    closed spec fn of_value(v: int) -> Self {
        i56(v as i64)
    }

    closed spec fn wf(self) -> bool {
        self.in_range()
    }

    proof fn lemma_width() {
    }

    proof fn lemma_value(x: Self) {
        lemma_pow256_values();
    }

    proof fn lemma_of_value(v: int) {
        lemma_pow256_values();
    }

    fn byte_width() -> (w: usize) {
        7
    }

    fn is_signed() -> (s: bool) {
        true
    }

    fn to_raw(&self) -> (raw: u128) {
        proof {
            use_type_invariant(self);
            lemma_pow256_values();
        }
        if self.0 < 0 {
            (self.0 as i128 + 0x100_0000_0000_0000) as u128
        } else {
            self.0 as u128
        }
    }

    fn from_raw(raw: u128) -> (x: Self) {
        proof {
            lemma_pow256_values();
        }
        if raw >= 0x80_0000_0000_0000 {
            i56((raw as i128 - 0x100_0000_0000_0000) as i64)
        } else {
            i56(raw as i64)
        }
    }
}

/// An unsigned integer of 56 bits.
#[allow(non_camel_case_types)]
#[derive(Debug, Clone, Copy, PartialEq, Eq, PartialOrd, Ord, Hash)]
pub struct u56(u64);

impl u56 {
    #[verifier::type_invariant]
    spec fn in_range(self) -> bool {
        self.0 <= 0xff_ffff_ffff_ffff
    }

    /// The value that stands for `value`, if `value` lies in the range of the
    /// type.
    pub fn try_new(value: u64) -> (r: Option<Self>)
        ensures
            r == (if value <= 0xff_ffff_ffff_ffff {
                Some(Self::of_value(value as int))
            } else {
                None
            }),
    {
        if value <= 0xff_ffff_ffff_ffff {
            Some(Self::new(value))
        } else {
            None
        }
    }

    /// The value that stands for `value`, which has to lie in the range of
    /// the type.
    pub fn new(value: u64) -> (x: Self)
        requires
            value <= 0xff_ffff_ffff_ffff,
        ensures
            x == Self::of_value(value as int),
            x.value() == value,
            x.wf(),
    {
        u56(value)
    }

    /// The number that the value stands for.
    pub fn get(self) -> (value: u64)
        ensures
            value == self.value(),
            self.wf(),
            value <= 0xff_ffff_ffff_ffff,
    {
        proof {
            use_type_invariant(&self);
        }
        self.0
    }

    /// The least value of the type.
    pub fn min_value() -> (x: Self)
        ensures
            x.value() == 0,
            x.wf(),
    {
        u56(0)
    }

    /// The greatest value of the type.
    pub fn max_value() -> (x: Self)
        ensures
            x.value() == 0xff_ffff_ffff_ffff,
            x.wf(),
    {
        u56(0xff_ffff_ffff_ffff)
    }
}

impl From<u56> for u64 {
    fn from(x: u56) -> (value: u64) {
        x.get()
    }
}

impl FromSpecImpl<u56> for u64 {
    open spec fn obeys_from_spec() -> bool {
        true
    }

    open spec fn from_spec(x: u56) -> u64 {
        x.value() as u64
    }
}

impl WireInt for u56 {
    open spec fn width() -> nat {
        7
    }

    open spec fn signed() -> bool {
        false
    }

    closed spec fn value(self) -> int {
        self.0 as int
    }

    closed spec fn of_value(v: int) -> Self {
        u56(v as u64)
    }

    closed spec fn wf(self) -> bool {
        self.in_range()
    }

    proof fn lemma_width() {
    }

    proof fn lemma_value(x: Self) {
        lemma_pow256_values();
    }

    proof fn lemma_of_value(v: int) {
        lemma_pow256_values();
    }

    fn byte_width() -> (w: usize) {
        7
    }

    fn is_signed() -> (s: bool) {
        false
    }

    fn to_raw(&self) -> (raw: u128) {
        proof {
            use_type_invariant(self);
        }
        self.0 as u128
    }

    fn from_raw(raw: u128) -> (x: Self) {
        proof {
            lemma_pow256_values();
        }
        u56(raw as u64)
    }
}

} // verus!
