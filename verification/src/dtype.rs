//! Element-type contract: per-type zero/one constants, naming metadata for
//! code generation, and the arithmetic every backend kernel is built from.
//! Each operation has a specification twin, so graph evaluation can be pinned
//! down exactly. The integer types implemented here use wrapping arithmetic,
//! total division (division by zero yields zero) and the integer square root;
//! other element types may be supplied by the host program through this same
//! contract.

use vstd::prelude::*;

use crate::text::{dec_digits, int_literal, i64_to_dec, u64_to_dec};

verus! {

/// The integer square root: the largest `r` with `r * r <= n`.
pub open spec fn isqrt_nat(n: nat) -> nat
    decreases n,
{
    if n == 0 {
        0
    } else {
        let r = isqrt_nat((n - 1) as nat);
        if (r + 1) * (r + 1) <= n {
            r + 1
        } else {
            r
        }
    }
}

/// `isqrt_nat(n)` squares to at most `n`, and is the largest such value.
pub proof fn lemma_isqrt_bounds(n: nat)
    ensures
        isqrt_nat(n) * isqrt_nat(n) <= n,
        (isqrt_nat(n) + 1) * (isqrt_nat(n) + 1) > n,
    decreases n,
{
    if n == 0 {
        assert(isqrt_nat(0) == 0);
        assert((isqrt_nat(n) + 1) * (isqrt_nat(n) + 1) == 1) by (nonlinear_arith)
            requires
                isqrt_nat(n) == 0,
        ;
    } else {
        lemma_isqrt_bounds((n - 1) as nat);
        let r = isqrt_nat((n - 1) as nat);
        assert(r * r <= n - 1);
        assert((r + 1) * (r + 1) > n - 1);
        if (r + 1) * (r + 1) <= n {
            assert(isqrt_nat(n) == r + 1);
            assert((r + 2) * (r + 2) > n) by (nonlinear_arith)
                requires
                    (r + 1) * (r + 1) > n - 1,
            ;
        } else {
            assert(isqrt_nat(n) == r);
            assert(r * r <= n);
            assert((r + 1) * (r + 1) > n);
        }
    }
}

/// Any value bracketed like the integer square root is the integer square
/// root.
pub proof fn lemma_isqrt_unique(n: nat, r: nat)
    requires
        r * r <= n,
        (r + 1) * (r + 1) > n,
    ensures
        r == isqrt_nat(n),
{
    lemma_isqrt_bounds(n);
    let s = isqrt_nat(n);
    if r < s {
        assert((r + 1) * (r + 1) <= s * s) by (nonlinear_arith)
            requires
                r + 1 <= s,
        ;
    }
    if s < r {
        assert((s + 1) * (s + 1) <= r * r) by (nonlinear_arith)
            requires
                s + 1 <= r,
        ;
    }
}

/// The integer square root by bisection.
pub fn isqrt_u64(n: u64) -> (r: u64)
    ensures
        r as nat == isqrt_nat(n as nat),
{
    if n == 0 {
        proof {
            assert(isqrt_nat(0) == 0);
        }
        return 0;
    }
    let mut lo: u64 = 0;
    let mut hi: u64 = 4294967296u64;
    proof {
        assert((hi as nat) * (hi as nat) > n as nat) by (nonlinear_arith)
            requires
                hi == 4294967296u64 && n <= u64::MAX,
        ;
    }
    while lo + 1 < hi
        invariant
            lo < hi,
            hi <= 4294967296u64,
            (lo as nat) * (lo as nat) <= n as nat,
            (hi as nat) * (hi as nat) > n as nat,
        decreases hi - lo,
    {
        let mid = lo + (hi - lo) / 2;
        proof {
            assert(mid < 4294967296u64);
            assert((mid as nat) * (mid as nat) < 18446744073709551616) by (nonlinear_arith)
                requires
                    mid < 4294967296u64,
            ;
        }
        let sq = mid * mid;
        if sq <= n {
            lo = mid;
        } else {
            hi = mid;
        }
    }
    proof {
        assert(hi == lo + 1);
        lemma_isqrt_unique(n as nat, lo as nat);
    }
    lo
}

/// Element-type contract for tensor data. Every arithmetic method is pinned
/// to its specification twin, so a kernel built from these operations has an
/// exact meaning per element. The specification twins carry defaults (an
/// arbitrary value), so a host program outside the verifier's reach can
/// supply an element type - a hardware float, say - by implementing only
/// the executable operations; the types implemented here override every
/// twin and prove their operations against the overrides.
pub trait DType: Copy + Send + Sync + Sized {
    /// The additive identity.
    open spec fn zero_spec() -> Self {
        vstd::pervasive::arbitrary::<Self>()
    }

    /// The multiplicative identity.
    open spec fn one_spec() -> Self {
        vstd::pervasive::arbitrary::<Self>()
    }

    /// Elementwise addition.
    open spec fn add_spec(a: Self, b: Self) -> Self {
        vstd::pervasive::arbitrary::<Self>()
    }

    /// Elementwise subtraction.
    open spec fn sub_spec(a: Self, b: Self) -> Self {
        vstd::pervasive::arbitrary::<Self>()
    }

    /// Elementwise multiplication.
    open spec fn mul_spec(a: Self, b: Self) -> Self {
        vstd::pervasive::arbitrary::<Self>()
    }

    /// Elementwise division, total: division by zero yields zero.
    open spec fn div_spec(a: Self, b: Self) -> Self {
        vstd::pervasive::arbitrary::<Self>()
    }

    /// Elementwise negation.
    open spec fn neg_spec(a: Self) -> Self {
        vstd::pervasive::arbitrary::<Self>()
    }

    /// Elementwise square root.
    open spec fn sqrt_spec(a: Self) -> Self {
        vstd::pervasive::arbitrary::<Self>()
    }

    /// The strict order used by `Arange` to decide when to stop.
    open spec fn lt_spec(a: Self, b: Self) -> bool {
        vstd::pervasive::arbitrary::<bool>()
    }

    /// An axis extent converted into an element, for step computation.
    open spec fn from_count_spec(n: usize) -> Self {
        vstd::pervasive::arbitrary::<Self>()
    }

    /// The type's display name.
    open spec fn name_spec() -> Seq<char> {
        Seq::<char>::empty()
    }

    /// The type's name in generated kernel source.
    open spec fn c_name_spec() -> Seq<char> {
        Seq::<char>::empty()
    }

    /// An extra header line required by generated kernel source, if any.
    open spec fn c_dep_spec() -> Option<Seq<char>> {
        None
    }

    /// The rendering of one element as a kernel-source literal.
    open spec fn literal_spec(a: Self) -> Seq<char> {
        Seq::<char>::empty()
    }

    fn zero() -> (r: Self)
        ensures
            r == Self::zero_spec(),
    ;

    fn one() -> (r: Self)
        ensures
            r == Self::one_spec(),
    ;

    fn add(a: Self, b: Self) -> (r: Self)
        ensures
            r == Self::add_spec(a, b),
    ;

    fn sub(a: Self, b: Self) -> (r: Self)
        ensures
            r == Self::sub_spec(a, b),
    ;

    fn mul(a: Self, b: Self) -> (r: Self)
        ensures
            r == Self::mul_spec(a, b),
    ;

    fn div(a: Self, b: Self) -> (r: Self)
        ensures
            r == Self::div_spec(a, b),
    ;

    fn neg(a: Self) -> (r: Self)
        ensures
            r == Self::neg_spec(a),
    ;

    fn sqrt(a: Self) -> (r: Self)
        ensures
            r == Self::sqrt_spec(a),
    ;

    fn lt(a: Self, b: Self) -> (r: bool)
        ensures
            r == Self::lt_spec(a, b),
    ;

    fn from_count(n: usize) -> (r: Self)
        ensures
            r == Self::from_count_spec(n),
    ;

    fn name() -> (r: String)
        ensures
            r@ == Self::name_spec(),
    ;

    fn c_name() -> (r: String)
        ensures
            r@ == Self::c_name_spec(),
    ;

    fn c_dep() -> (r: Option<String>)
        ensures
            match r {
                Some(s) => Self::c_dep_spec() matches Some(d) && s@ == d,
                None => Self::c_dep_spec() is None,
            },
    ;

    fn literal(a: Self) -> (r: String)
        ensures
            r@ == Self::literal_spec(a),
    ;
}

impl DType for i32 {
    open spec fn zero_spec() -> i32 {
        0i32
    }

    open spec fn one_spec() -> i32 {
        1i32
    }

    open spec fn add_spec(a: i32, b: i32) -> i32 {
        vstd::wrapping::i32_specs::wrapping_add(a, b)
    }

    open spec fn sub_spec(a: i32, b: i32) -> i32 {
        vstd::wrapping::i32_specs::wrapping_sub(a, b)
    }

    open spec fn mul_spec(a: i32, b: i32) -> i32 {
        vstd::wrapping::i32_specs::wrapping_mul(a, b)
    }

    open spec fn div_spec(a: i32, b: i32) -> i32 {
        if b == 0 {
            0i32
        } else {
            match a.checked_div(b) {
                Some(q) => q,
                None => i32::MIN,
            }
        }
    }

    open spec fn neg_spec(a: i32) -> i32 {
        vstd::wrapping::i32_specs::wrapping_sub(0i32, a)
    }

    open spec fn sqrt_spec(a: i32) -> i32 {
        if a <= 0 {
            0i32
        } else {
            isqrt_nat(a as nat) as i32
        }
    }

    open spec fn lt_spec(a: i32, b: i32) -> bool {
        a < b
    }

    open spec fn from_count_spec(n: usize) -> i32 {
        if n <= i32::MAX {
            n as i32
        } else {
            i32::MAX
        }
    }

    open spec fn name_spec() -> Seq<char> {
        "i32"@
    }

    open spec fn c_name_spec() -> Seq<char> {
        "int32_t"@
    }

    open spec fn c_dep_spec() -> Option<Seq<char>> {
        None
    }

    open spec fn literal_spec(a: i32) -> Seq<char> {
        int_literal(a as int)
    }

    fn zero() -> i32 {
        0
    }

    fn one() -> i32 {
        1
    }

    fn add(a: i32, b: i32) -> i32 {
        a.wrapping_add(b)
    }

    fn sub(a: i32, b: i32) -> i32 {
        a.wrapping_sub(b)
    }

    fn mul(a: i32, b: i32) -> i32 {
        a.wrapping_mul(b)
    }

    fn div(a: i32, b: i32) -> i32 {
        if b == 0 {
            0
        } else {
            match a.checked_div(b) {
                Some(q) => q,
                None => i32::MIN,
            }
        }
    }

    fn neg(a: i32) -> i32 {
        0i32.wrapping_sub(a)
    }

    fn sqrt(a: i32) -> (r: i32) {
        if a <= 0 {
            0
        } else {
            let s = isqrt_u64(a as u64);
            proof {
                lemma_isqrt_bounds(a as nat);
                assert(isqrt_nat(a as nat) * isqrt_nat(a as nat) <= a as nat);
                assert(isqrt_nat(a as nat) <= a as nat) by (nonlinear_arith)
                    requires
                        isqrt_nat(a as nat) * isqrt_nat(a as nat) <= a as nat,
                ;
            }
            s as i32
        }
    }

    fn lt(a: i32, b: i32) -> bool {
        a < b
    }

    fn from_count(n: usize) -> i32 {
        if n <= i32::MAX as usize {
            n as i32
        } else {
            i32::MAX
        }
    }

    fn name() -> String {
        String::from_str("i32")
    }

    fn c_name() -> String {
        String::from_str("int32_t")
    }

    fn c_dep() -> Option<String> {
        None
    }

    fn literal(a: i32) -> String {
        i64_to_dec(a as i64)
    }
}

impl DType for i64 {
    open spec fn zero_spec() -> i64 {
        0i64
    }

    open spec fn one_spec() -> i64 {
        1i64
    }

    open spec fn add_spec(a: i64, b: i64) -> i64 {
        vstd::wrapping::i64_specs::wrapping_add(a, b)
    }

    open spec fn sub_spec(a: i64, b: i64) -> i64 {
        vstd::wrapping::i64_specs::wrapping_sub(a, b)
    }

    open spec fn mul_spec(a: i64, b: i64) -> i64 {
        vstd::wrapping::i64_specs::wrapping_mul(a, b)
    }

    open spec fn div_spec(a: i64, b: i64) -> i64 {
        if b == 0 {
            0i64
        } else {
            match a.checked_div(b) {
                Some(q) => q,
                None => i64::MIN,
            }
        }
    }

    open spec fn neg_spec(a: i64) -> i64 {
        vstd::wrapping::i64_specs::wrapping_sub(0i64, a)
    }

    open spec fn sqrt_spec(a: i64) -> i64 {
        if a <= 0 {
            0i64
        } else {
            isqrt_nat(a as nat) as i64
        }
    }

    open spec fn lt_spec(a: i64, b: i64) -> bool {
        a < b
    }

    open spec fn from_count_spec(n: usize) -> i64 {
        if n <= i64::MAX {
            n as i64
        } else {
            i64::MAX
        }
    }

    open spec fn name_spec() -> Seq<char> {
        "i64"@
    }

    open spec fn c_name_spec() -> Seq<char> {
        "int64_t"@
    }

    open spec fn c_dep_spec() -> Option<Seq<char>> {
        None
    }

    open spec fn literal_spec(a: i64) -> Seq<char> {
        int_literal(a as int)
    }

    fn zero() -> i64 {
        0
    }

    fn one() -> i64 {
        1
    }

    fn add(a: i64, b: i64) -> i64 {
        a.wrapping_add(b)
    }

    fn sub(a: i64, b: i64) -> i64 {
        a.wrapping_sub(b)
    }

    fn mul(a: i64, b: i64) -> i64 {
        a.wrapping_mul(b)
    }

    fn div(a: i64, b: i64) -> i64 {
        if b == 0 {
            0
        } else {
            match a.checked_div(b) {
                Some(q) => q,
                None => i64::MIN,
            }
        }
    }

    fn neg(a: i64) -> i64 {
        0i64.wrapping_sub(a)
    }

    fn sqrt(a: i64) -> (r: i64) {
        if a <= 0 {
            0
        } else {
            let s = isqrt_u64(a as u64);
            proof {
                lemma_isqrt_bounds(a as nat);
                assert(isqrt_nat(a as nat) * isqrt_nat(a as nat) <= a as nat);
                assert(isqrt_nat(a as nat) <= a as nat) by (nonlinear_arith)
                    requires
                        isqrt_nat(a as nat) * isqrt_nat(a as nat) <= a as nat,
                ;
            }
            s as i64
        }
    }

    fn lt(a: i64, b: i64) -> bool {
        a < b
    }

    fn from_count(n: usize) -> i64 {
        if (n as u64) <= 9223372036854775807u64 {
            n as i64
        } else {
            i64::MAX
        }
    }

    fn name() -> String {
        String::from_str("i64")
    }

    fn c_name() -> String {
        String::from_str("int64_t")
    }

    fn c_dep() -> Option<String> {
        None
    }

    fn literal(a: i64) -> String {
        i64_to_dec(a)
    }
}

impl DType for u8 {
    open spec fn zero_spec() -> u8 {
        0u8
    }

    open spec fn one_spec() -> u8 {
        1u8
    }

    open spec fn add_spec(a: u8, b: u8) -> u8 {
        vstd::wrapping::u8_specs::wrapping_add(a, b)
    }

    open spec fn sub_spec(a: u8, b: u8) -> u8 {
        vstd::wrapping::u8_specs::wrapping_sub(a, b)
    }

    open spec fn mul_spec(a: u8, b: u8) -> u8 {
        vstd::wrapping::u8_specs::wrapping_mul(a, b)
    }

    open spec fn div_spec(a: u8, b: u8) -> u8 {
        if b == 0 {
            0u8
        } else {
            a / b
        }
    }

    open spec fn neg_spec(a: u8) -> u8 {
        vstd::wrapping::u8_specs::wrapping_sub(0u8, a)
    }

    open spec fn sqrt_spec(a: u8) -> u8 {
        isqrt_nat(a as nat) as u8
    }

    open spec fn lt_spec(a: u8, b: u8) -> bool {
        a < b
    }

    open spec fn from_count_spec(n: usize) -> u8 {
        if n <= u8::MAX {
            n as u8
        } else {
            u8::MAX
        }
    }

    open spec fn name_spec() -> Seq<char> {
        "u8"@
    }

    open spec fn c_name_spec() -> Seq<char> {
        "uint8_t"@
    }

    open spec fn c_dep_spec() -> Option<Seq<char>> {
        None
    }

    open spec fn literal_spec(a: u8) -> Seq<char> {
        dec_digits(a as nat)
    }

    fn zero() -> u8 {
        0
    }

    fn one() -> u8 {
        1
    }

    fn add(a: u8, b: u8) -> u8 {
        a.wrapping_add(b)
    }

    fn sub(a: u8, b: u8) -> u8 {
        a.wrapping_sub(b)
    }

    fn mul(a: u8, b: u8) -> u8 {
        a.wrapping_mul(b)
    }

    fn div(a: u8, b: u8) -> u8 {
        if b == 0 {
            0
        } else {
            a / b
        }
    }

    fn neg(a: u8) -> u8 {
        0u8.wrapping_sub(a)
    }

    fn sqrt(a: u8) -> (r: u8) {
        let s = isqrt_u64(a as u64);
        proof {
            lemma_isqrt_bounds(a as nat);
            assert(isqrt_nat(a as nat) <= a as nat) by (nonlinear_arith)
                requires
                    isqrt_nat(a as nat) * isqrt_nat(a as nat) <= a as nat,
            ;
        }
        s as u8
    }

    fn lt(a: u8, b: u8) -> bool {
        a < b
    }

    fn from_count(n: usize) -> u8 {
        if n <= u8::MAX as usize {
            n as u8
        } else {
            u8::MAX
        }
    }

    fn name() -> String {
        String::from_str("u8")
    }

    fn c_name() -> String {
        String::from_str("uint8_t")
    }

    fn c_dep() -> Option<String> {
        None
    }

    fn literal(a: u8) -> String {
        u64_to_dec(a as u64)
    }
}

impl DType for u32 {
    open spec fn zero_spec() -> u32 {
        0u32
    }

    open spec fn one_spec() -> u32 {
        1u32
    }

    open spec fn add_spec(a: u32, b: u32) -> u32 {
        vstd::wrapping::u32_specs::wrapping_add(a, b)
    }

    open spec fn sub_spec(a: u32, b: u32) -> u32 {
        vstd::wrapping::u32_specs::wrapping_sub(a, b)
    }

    open spec fn mul_spec(a: u32, b: u32) -> u32 {
        vstd::wrapping::u32_specs::wrapping_mul(a, b)
    }

    open spec fn div_spec(a: u32, b: u32) -> u32 {
        if b == 0 {
            0u32
        } else {
            a / b
        }
    }

    open spec fn neg_spec(a: u32) -> u32 {
        vstd::wrapping::u32_specs::wrapping_sub(0u32, a)
    }

    open spec fn sqrt_spec(a: u32) -> u32 {
        isqrt_nat(a as nat) as u32
    }

    open spec fn lt_spec(a: u32, b: u32) -> bool {
        a < b
    }

    open spec fn from_count_spec(n: usize) -> u32 {
        if n <= u32::MAX {
            n as u32
        } else {
            u32::MAX
        }
    }

    open spec fn name_spec() -> Seq<char> {
        "u32"@
    }

    open spec fn c_name_spec() -> Seq<char> {
        "uint32_t"@
    }

    open spec fn c_dep_spec() -> Option<Seq<char>> {
        None
    }

    open spec fn literal_spec(a: u32) -> Seq<char> {
        dec_digits(a as nat)
    }

    fn zero() -> u32 {
        0
    }

    fn one() -> u32 {
        1
    }

    fn add(a: u32, b: u32) -> u32 {
        a.wrapping_add(b)
    }

    fn sub(a: u32, b: u32) -> u32 {
        a.wrapping_sub(b)
    }

    fn mul(a: u32, b: u32) -> u32 {
        a.wrapping_mul(b)
    }

    fn div(a: u32, b: u32) -> u32 {
        if b == 0 {
            0
        } else {
            a / b
        }
    }

    fn neg(a: u32) -> u32 {
        0u32.wrapping_sub(a)
    }

    fn sqrt(a: u32) -> (r: u32) {
        let s = isqrt_u64(a as u64);
        proof {
            lemma_isqrt_bounds(a as nat);
            assert(isqrt_nat(a as nat) <= a as nat) by (nonlinear_arith)
                requires
                    isqrt_nat(a as nat) * isqrt_nat(a as nat) <= a as nat,
            ;
        }
        s as u32
    }

    fn lt(a: u32, b: u32) -> bool {
        a < b
    }

    fn from_count(n: usize) -> u32 {
        if n <= u32::MAX as usize {
            n as u32
        } else {
            u32::MAX
        }
    }

    fn name() -> String {
        String::from_str("u32")
    }

    fn c_name() -> String {
        String::from_str("uint32_t")
    }

    fn c_dep() -> Option<String> {
        None
    }

    fn literal(a: u32) -> String {
        u64_to_dec(a as u64)
    }
}

/// Conversion between element types, with an exact per-element meaning.
pub trait CastFrom<S>: Sized {
    /// The value an element converts to.
    open spec fn cast_spec(s: S) -> Self {
        vstd::pervasive::arbitrary::<Self>()
    }

    fn cast_from(s: S) -> (r: Self)
        ensures
            r == Self::cast_spec(s),
    ;
}

impl CastFrom<i32> for i64 {
    open spec fn cast_spec(s: i32) -> i64 {
        s as i64
    }

    fn cast_from(s: i32) -> i64 {
        s as i64
    }
}

impl CastFrom<u8> for i32 {
    open spec fn cast_spec(s: u8) -> i32 {
        s as i32
    }

    fn cast_from(s: u8) -> i32 {
        s as i32
    }
}

impl CastFrom<u8> for u32 {
    open spec fn cast_spec(s: u8) -> u32 {
        s as u32
    }

    fn cast_from(s: u8) -> u32 {
        s as u32
    }
}

impl CastFrom<u32> for i64 {
    open spec fn cast_spec(s: u32) -> i64 {
        s as i64
    }

    fn cast_from(s: u32) -> i64 {
        s as i64
    }
}

/// Conversion that narrows, keeping values that fit and saturating the rest
/// at the bounds, the way a host cast toward a smaller integer is expected
/// to behave for in-range data.
impl CastFrom<i64> for i32 {
    open spec fn cast_spec(s: i64) -> i32 {
        if s < i32::MIN {
            i32::MIN
        } else if s > i32::MAX {
            i32::MAX
        } else {
            s as i32
        }
    }

    fn cast_from(s: i64) -> i32 {
        if s < i32::MIN as i64 {
            i32::MIN
        } else if s > i32::MAX as i64 {
            i32::MAX
        } else {
            s as i32
        }
    }
}

} // verus!
