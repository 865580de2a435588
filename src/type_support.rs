//! The numeric width policy: which internal word each output type is computed
//! in, how many bits of it may be used, and how raw words are rendered.
use vstd::prelude::*;
use crate::bits::{valid_width, fits, low_mask};

verus! {

/// An unsigned word the sequence is computed in.
pub trait InternalType: Sized + Copy {
    /// Width of the word in bits.
    spec fn spec_bits() -> nat;

    /// The word's value, widened.
    spec fn wide(self) -> u128;

    /// The word holding the low bits of `v`.
    spec fn narrow(v: u128) -> Self;

    /// The width is one of the supported ones, and narrowing a value that fits
    /// gives it back.
    proof fn lemma_width()
        ensures
            valid_width(Self::spec_bits()),
            forall|v: u128| fits(v, Self::spec_bits()) ==> (#[trigger] Self::narrow(v)).wide() == v,
    ;

    /// Width of the word in bits.
    fn bits() -> (r: usize)
        ensures
            r as nat == Self::spec_bits(),
    ;

    /// Keeps the low bits of `v`.
    fn from_wide(v: u128) -> (r: Self)
        ensures
            r == Self::narrow(v),
    ;
}

/// The numeric type a sequence yields. It fixes the internal word the
/// sequence is computed in, and how many of its bits may be used.
pub trait SobolType: Sized {
    /// The unsigned word used internally to compute sequence values.
    type IT: InternalType;

    /// The most bits a sequence of this type may use.
    spec fn spec_max_resolution() -> nat;

    /// At least one bit may be used, and no more than the word holds.
    proof fn lemma_resolution()
        ensures
            1 <= Self::spec_max_resolution() <= Self::IT::spec_bits(),
    ;

    /// The most bits a sequence of this type may use: the whole word for
    /// integer types.
    fn max_resolution() -> (r: usize)
        ensures
            r as nat == Self::spec_max_resolution(),
    ;
}

/// Converts internal values to those expected by the user.
pub trait Render<T: SobolType>: Sized {
    /// The value rendered for coordinate `dim` holding `val`.
    spec fn spec_render(&self, dim: nat, val: T::IT) -> T;

    /// The number of dimensions the render is made for, if it is fixed.
    spec fn spec_support_dims(&self) -> Option<usize>;

    /// Renders coordinate `dim`.
    fn render(&self, dim: usize, val: T::IT) -> (r: T)
        ensures
            r == self.spec_render(dim as nat, val),
    ;

    /// The number of dimensions the render is made for, if it is fixed.
    fn support_dims(&self) -> (r: Option<usize>)
        ensures
            r == self.spec_support_dims(),
    ;
}

/// Renders words unchanged for unsigned output, and with the sign bit flipped
/// for signed output, so that raw order maps to signed order centred on zero.
#[derive(Debug, Clone, Copy, PartialEq, Eq, Structural)]
pub struct LinearRender;

impl InternalType for u8 {
    open spec fn spec_bits() -> nat {
        8
    }

    open spec fn wide(self) -> u128 {
        self as u128
    }

    open spec fn narrow(v: u128) -> u8 {
        v as u8
    }

    proof fn lemma_width() {
        assert forall|v: u128| fits(v, 8) implies (v as u8) as u128 == v by {
            assert(v & (u128::MAX >> 120u32) == v ==> (v as u8) as u128 == v) by (bit_vector);
        }
    }

    fn bits() -> (r: usize) {
        8
    }

    fn from_wide(v: u128) -> (r: u8) {
        v as u8
    }
}

impl InternalType for u16 {
    open spec fn spec_bits() -> nat {
        16
    }

    open spec fn wide(self) -> u128 {
        self as u128
    }

    open spec fn narrow(v: u128) -> u16 {
        v as u16
    }

    proof fn lemma_width() {
        assert forall|v: u128| fits(v, 16) implies (v as u16) as u128 == v by {
            assert(v & (u128::MAX >> 112u32) == v ==> (v as u16) as u128 == v) by (bit_vector);
        }
    }

    fn bits() -> (r: usize) {
        16
    }

    fn from_wide(v: u128) -> (r: u16) {
        v as u16
    }
}

impl InternalType for u32 {
    open spec fn spec_bits() -> nat {
        32
    }

    open spec fn wide(self) -> u128 {
        self as u128
    }

    open spec fn narrow(v: u128) -> u32 {
        v as u32
    }

    proof fn lemma_width() {
        assert forall|v: u128| fits(v, 32) implies (v as u32) as u128 == v by {
            assert(v & (u128::MAX >> 96u32) == v ==> (v as u32) as u128 == v) by (bit_vector);
        }
    }

    fn bits() -> (r: usize) {
        32
    }

    fn from_wide(v: u128) -> (r: u32) {
        v as u32
    }
}

impl InternalType for u64 {
    open spec fn spec_bits() -> nat {
        64
    }

    open spec fn wide(self) -> u128 {
        self as u128
    }

    open spec fn narrow(v: u128) -> u64 {
        v as u64
    }

    proof fn lemma_width() {
        assert forall|v: u128| fits(v, 64) implies (v as u64) as u128 == v by {
            assert(v & (u128::MAX >> 64u32) == v ==> (v as u64) as u128 == v) by (bit_vector);
        }
    }

    fn bits() -> (r: usize) {
        64
    }

    fn from_wide(v: u128) -> (r: u64) {
        v as u64
    }
}

impl InternalType for u128 {
    open spec fn spec_bits() -> nat {
        128
    }

    open spec fn wide(self) -> u128 {
        self as u128
    }

    open spec fn narrow(v: u128) -> u128 {
        v as u128
    }

    proof fn lemma_width() {

    }

    fn bits() -> (r: usize) {
        128
    }

    fn from_wide(v: u128) -> (r: u128) {
        v as u128
    }
}

impl SobolType for u8 {
    type IT = u8;

    open spec fn spec_max_resolution() -> nat {
        8
    }

    proof fn lemma_resolution() {
    }

    fn max_resolution() -> (r: usize) {
        8
    }
}

impl Render<u8> for LinearRender {
    open spec fn spec_render(&self, dim: nat, val: u8) -> u8 {
        val
    }

    open spec fn spec_support_dims(&self) -> Option<usize> {
        None
    }

    fn render(&self, dim: usize, val: u8) -> (r: u8) {
        val
    }

    fn support_dims(&self) -> (r: Option<usize>) {
        None
    }
}

impl SobolType for u16 {
    type IT = u16;

    open spec fn spec_max_resolution() -> nat {
        16
    }

    proof fn lemma_resolution() {
    }

    fn max_resolution() -> (r: usize) {
        16
    }
}

impl Render<u16> for LinearRender {
    open spec fn spec_render(&self, dim: nat, val: u16) -> u16 {
        val
    }

    open spec fn spec_support_dims(&self) -> Option<usize> {
        None
    }

    fn render(&self, dim: usize, val: u16) -> (r: u16) {
        val
    }

    fn support_dims(&self) -> (r: Option<usize>) {
        None
    }
}

impl SobolType for u32 {
    type IT = u32;

    open spec fn spec_max_resolution() -> nat {
        32
    }

    proof fn lemma_resolution() {
    }

    fn max_resolution() -> (r: usize) {
        32
    }
}

impl Render<u32> for LinearRender {
    open spec fn spec_render(&self, dim: nat, val: u32) -> u32 {
        val
    }

    open spec fn spec_support_dims(&self) -> Option<usize> {
        None
    }

    fn render(&self, dim: usize, val: u32) -> (r: u32) {
        val
    }

    fn support_dims(&self) -> (r: Option<usize>) {
        None
    }
}

impl SobolType for u64 {
    type IT = u64;

    open spec fn spec_max_resolution() -> nat {
        64
    }

    proof fn lemma_resolution() {
    }

    fn max_resolution() -> (r: usize) {
        64
    }
}

impl Render<u64> for LinearRender {
    open spec fn spec_render(&self, dim: nat, val: u64) -> u64 {
        val
    }

    open spec fn spec_support_dims(&self) -> Option<usize> {
        None
    }

    fn render(&self, dim: usize, val: u64) -> (r: u64) {
        val
    }

    fn support_dims(&self) -> (r: Option<usize>) {
        None
    }
}

impl SobolType for u128 {
    type IT = u128;

    open spec fn spec_max_resolution() -> nat {
        128
    }

    proof fn lemma_resolution() {
    }

    fn max_resolution() -> (r: usize) {
        128
    }
}

impl Render<u128> for LinearRender {
    open spec fn spec_render(&self, dim: nat, val: u128) -> u128 {
        val
    }

    open spec fn spec_support_dims(&self) -> Option<usize> {
        None
    }

    fn render(&self, dim: usize, val: u128) -> (r: u128) {
        val
    }

    fn support_dims(&self) -> (r: Option<usize>) {
        None
    }
}

impl SobolType for i8 {
    type IT = u8;

    open spec fn spec_max_resolution() -> nat {
        8
    }

    proof fn lemma_resolution() {
    }

    fn max_resolution() -> (r: usize) {
        8
    }
}

impl Render<i8> for LinearRender {
    open spec fn spec_render(&self, dim: nat, val: u8) -> i8 {
        (val ^ 0x80) as i8
    }

    open spec fn spec_support_dims(&self) -> Option<usize> {
        None
    }

    fn render(&self, dim: usize, val: u8) -> (r: i8) {
        (val ^ 0x80) as i8
    }

    fn support_dims(&self) -> (r: Option<usize>) {
        None
    }
}

impl SobolType for i16 {
    type IT = u16;

    open spec fn spec_max_resolution() -> nat {
        16
    }

    proof fn lemma_resolution() {
    }

    fn max_resolution() -> (r: usize) {
        16
    }
}

impl Render<i16> for LinearRender {
    open spec fn spec_render(&self, dim: nat, val: u16) -> i16 {
        (val ^ 0x8000) as i16
    }

    open spec fn spec_support_dims(&self) -> Option<usize> {
        None
    }

    fn render(&self, dim: usize, val: u16) -> (r: i16) {
        (val ^ 0x8000) as i16
    }

    fn support_dims(&self) -> (r: Option<usize>) {
        None
    }
}

impl SobolType for i32 {
    type IT = u32;

    open spec fn spec_max_resolution() -> nat {
        32
    }

    proof fn lemma_resolution() {
    }

    fn max_resolution() -> (r: usize) {
        32
    }
}

impl Render<i32> for LinearRender {
    open spec fn spec_render(&self, dim: nat, val: u32) -> i32 {
        (val ^ 0x80000000) as i32
    }

    open spec fn spec_support_dims(&self) -> Option<usize> {
        None
    }

    fn render(&self, dim: usize, val: u32) -> (r: i32) {
        (val ^ 0x80000000) as i32
    }

    fn support_dims(&self) -> (r: Option<usize>) {
        None
    }
}

impl SobolType for i64 {
    type IT = u64;

    open spec fn spec_max_resolution() -> nat {
        64
    }

    proof fn lemma_resolution() {
    }

    fn max_resolution() -> (r: usize) {
        64
    }
}

impl Render<i64> for LinearRender {
    open spec fn spec_render(&self, dim: nat, val: u64) -> i64 {
        (val ^ 0x8000000000000000) as i64
    }

    open spec fn spec_support_dims(&self) -> Option<usize> {
        None
    }

    fn render(&self, dim: usize, val: u64) -> (r: i64) {
        (val ^ 0x8000000000000000) as i64
    }

    fn support_dims(&self) -> (r: Option<usize>) {
        None
    }
}

impl SobolType for i128 {
    type IT = u128;

    open spec fn spec_max_resolution() -> nat {
        128
    }

    proof fn lemma_resolution() {
    }

    fn max_resolution() -> (r: usize) {
        128
    }
}

impl Render<i128> for LinearRender {
    open spec fn spec_render(&self, dim: nat, val: u128) -> i128 {
        (val ^ 0x80000000000000000000000000000000) as i128
    }

    open spec fn spec_support_dims(&self) -> Option<usize> {
        None
    }

    fn render(&self, dim: usize, val: u128) -> (r: i128) {
        (val ^ 0x80000000000000000000000000000000) as i128
    }

    fn support_dims(&self) -> (r: Option<usize>) {
        None
    }
}

/// A more permissive `From`, for casts where truncation is acceptable. It
/// brings parameter words into the internal word.
pub trait LossyFrom<T>: Sized {
    /// The converted value.
    spec fn spec_lossy_from(v: T) -> Self;

    fn lossy_from(v: T) -> (r: Self)
        ensures
            r == Self::spec_lossy_from(v),
    ;
}

/// Every type converts into itself unchanged.
impl<T> LossyFrom<T> for T {
    open spec fn spec_lossy_from(v: T) -> T {
        v
    }

    fn lossy_from(v: T) -> (r: T) {
        v
    }
}

/// `u16` into `u8`: the low bits are kept.
impl LossyFrom<u16> for u8 {
    open spec fn spec_lossy_from(v: u16) -> u8 {
        v as u8
    }

    fn lossy_from(v: u16) -> (r: u8) {
        v as u8
    }
}

/// `u16` into `u32`: the value is kept.
impl LossyFrom<u16> for u32 {
    open spec fn spec_lossy_from(v: u16) -> u32 {
        v as u32
    }

    fn lossy_from(v: u16) -> (r: u32) {
        v as u32
    }
}

/// `u16` into `u64`: the value is kept.
impl LossyFrom<u16> for u64 {
    open spec fn spec_lossy_from(v: u16) -> u64 {
        v as u64
    }

    fn lossy_from(v: u16) -> (r: u64) {
        v as u64
    }
}

/// `u16` into `u128`: the value is kept.
impl LossyFrom<u16> for u128 {
    open spec fn spec_lossy_from(v: u16) -> u128 {
        v as u128
    }

    fn lossy_from(v: u16) -> (r: u128) {
        v as u128
    }
}

/// `u32` into `u8`: the low bits are kept.
impl LossyFrom<u32> for u8 {
    open spec fn spec_lossy_from(v: u32) -> u8 {
        v as u8
    }

    fn lossy_from(v: u32) -> (r: u8) {
        v as u8
    }
}

/// `u32` into `u16`: the low bits are kept.
impl LossyFrom<u32> for u16 {
    open spec fn spec_lossy_from(v: u32) -> u16 {
        v as u16
    }

    fn lossy_from(v: u32) -> (r: u16) {
        v as u16
    }
}

/// `u32` into `u64`: the value is kept.
impl LossyFrom<u32> for u64 {
    open spec fn spec_lossy_from(v: u32) -> u64 {
        v as u64
    }

    fn lossy_from(v: u32) -> (r: u64) {
        v as u64
    }
}

/// `u32` into `u128`: the value is kept.
impl LossyFrom<u32> for u128 {
    open spec fn spec_lossy_from(v: u32) -> u128 {
        v as u128
    }

    fn lossy_from(v: u32) -> (r: u128) {
        v as u128
    }
}

/// `u64` into `u8`: the low bits are kept.
impl LossyFrom<u64> for u8 {
    open spec fn spec_lossy_from(v: u64) -> u8 {
        v as u8
    }

    fn lossy_from(v: u64) -> (r: u8) {
        v as u8
    }
}

/// `u64` into `u16`: the low bits are kept.
impl LossyFrom<u64> for u16 {
    open spec fn spec_lossy_from(v: u64) -> u16 {
        v as u16
    }

    fn lossy_from(v: u64) -> (r: u16) {
        v as u16
    }
}

/// `u64` into `u32`: the low bits are kept.
impl LossyFrom<u64> for u32 {
    open spec fn spec_lossy_from(v: u64) -> u32 {
        v as u32
    }

    fn lossy_from(v: u64) -> (r: u32) {
        v as u32
    }
}

/// `u64` into `u128`: the value is kept.
impl LossyFrom<u64> for u128 {
    open spec fn spec_lossy_from(v: u64) -> u128 {
        v as u128
    }

    fn lossy_from(v: u64) -> (r: u128) {
        v as u128
    }
}

/// `u128` into `u8`: the low bits are kept.
impl LossyFrom<u128> for u8 {
    open spec fn spec_lossy_from(v: u128) -> u8 {
        v as u8
    }

    fn lossy_from(v: u128) -> (r: u8) {
        v as u8
    }
}

/// `u128` into `u16`: the low bits are kept.
impl LossyFrom<u128> for u16 {
    open spec fn spec_lossy_from(v: u128) -> u16 {
        v as u16
    }

    fn lossy_from(v: u128) -> (r: u16) {
        v as u16
    }
}

/// `u128` into `u32`: the low bits are kept.
impl LossyFrom<u128> for u32 {
    open spec fn spec_lossy_from(v: u128) -> u32 {
        v as u32
    }

    fn lossy_from(v: u128) -> (r: u32) {
        v as u32
    }
}

/// `u128` into `u64`: the low bits are kept.
impl LossyFrom<u128> for u64 {
    open spec fn spec_lossy_from(v: u128) -> u64 {
        v as u64
    }

    fn lossy_from(v: u128) -> (r: u64) {
        v as u64
    }
}

} // verus!
