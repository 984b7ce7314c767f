//! Square root prices at ticks and ticks at square root prices.
use crate::arith::{
    div_facts, div_unique, mul_le, p128, p256, p96, two, two_add, two_mono, two_pos, two_step,
    two_values, wrap, wrap_signed_facts,
};
use crate::log2::{
    log_ge, log_ge_bump, log_ge_cancel, log_ge_mono, log_ge_mul, log_le, log_le_bump, log_le_cancel,
    log_le_mono, log_le_mul, log_of_two, log_separates, scaled_log_ge, scaled_log_le, square_ge,
    square_le, unit,
};
use crate::types::{
    extend_128, i256_bits, max_ratio, min_ratio, I256, MAX_TICK, MAX_UINT128, MAX_UINT256, MIN_TICK,
    Q128, Q32, U256,
};
use vstd::arithmetic::power::pow;
use vstd::prelude::*;

verus! {

/// `2^128 / sqrt(1.0001)^(2^i)`, rounded.
pub open spec fn magic(i: int) -> int {
    if i == 0 {
        0xfffcb933bd6fad37aa2d162d1a594001
    } else if i == 1 {
        0xfff97272373d413259a46990580e213a
    } else if i == 2 {
        0xfff2e50f5f656932ef12357cf3c7fdcc
    } else if i == 3 {
        0xffe5caca7e10e4e61c3624eaa0941cd0
    } else if i == 4 {
        0xffcb9843d60f6159c9db58835c926644
    } else if i == 5 {
        0xff973b41fa98c081472e6896dfb254c0
    } else if i == 6 {
        0xff2ea16466c96a3843ec78b326b52861
    } else if i == 7 {
        0xfe5dee046a99a2a811c461f1969c3053
    } else if i == 8 {
        0xfcbe86c7900a88aedcffc83b479aa3a4
    } else if i == 9 {
        0xf987a7253ac413176f2b074cf7815e54
    } else if i == 10 {
        0xf3392b0822b70005940c7a398e4b70f3
    } else if i == 11 {
        0xe7159475a2c29b7443b29c7fa6e889d9
    } else if i == 12 {
        0xd097f3bdfd2022b8845ad8f792aa5825
    } else if i == 13 {
        0xa9f746462d870fdf8a65dc1f90e061e5
    } else if i == 14 {
        0x70d869a156d2a1b890bb3df62baf32f7
    } else if i == 15 {
        0x31be135f97d08fd981231505542fcfa6
    } else if i == 16 {
        0x9aa508b5b7a84e1c677de54f3e99bc9
    } else if i == 17 {
        0x5d6af8dedb81196699c329225ee604
    } else if i == 18 {
        0x2216e584f5fa1ea926041bedfe98
    } else {
        0x48a170391f7dc42444e8fa2
    }
}

/// The product of the constants for the low `k` bits of `a`, each product cut back
/// to 128 fractional bits: `2^128 / sqrt(1.0001)^a` for `k` bits that hold `a`.
pub open spec fn inverse_ratio(a: int, k: int) -> int
    decreases k,
{
    if k <= 0 {
        p128()
    } else if (a / two(k - 1)) % 2 == 1 {
        inverse_ratio(a, k - 1) * magic(k - 1) / p128()
    } else {
        inverse_ratio(a, k - 1)
    }
}

/// `sqrt(1.0001)^t` with 128 fractional bits.
pub open spec fn ratio_128(t: int) -> int {
    if t > 0 {
        (p256() - 1) / inverse_ratio(t, 20)
    } else {
        inverse_ratio(-t, 20)
    }
}

/// The square root price at tick `t`: `sqrt(1.0001)^t` with 96 fractional bits,
/// rounded up.
#[verifier::opaque]
pub open spec fn ratio_at(t: int) -> int {
    (ratio_128(t) + 0xFFFF_FFFF) / 0x1_0000_0000
}

fn magic_constant(i: u32) -> (r: U256)
    requires
        i < 20,
    ensures
        r@ == magic(i as int),
{
    if i == 0 {
        U256::from_u128(0xfffcb933bd6fad37aa2d162d1a594001)
    } else if i == 1 {
        U256::from_u128(0xfff97272373d413259a46990580e213a)
    } else if i == 2 {
        U256::from_u128(0xfff2e50f5f656932ef12357cf3c7fdcc)
    } else if i == 3 {
        U256::from_u128(0xffe5caca7e10e4e61c3624eaa0941cd0)
    } else if i == 4 {
        U256::from_u128(0xffcb9843d60f6159c9db58835c926644)
    } else if i == 5 {
        U256::from_u128(0xff973b41fa98c081472e6896dfb254c0)
    } else if i == 6 {
        U256::from_u128(0xff2ea16466c96a3843ec78b326b52861)
    } else if i == 7 {
        U256::from_u128(0xfe5dee046a99a2a811c461f1969c3053)
    } else if i == 8 {
        U256::from_u128(0xfcbe86c7900a88aedcffc83b479aa3a4)
    } else if i == 9 {
        U256::from_u128(0xf987a7253ac413176f2b074cf7815e54)
    } else if i == 10 {
        U256::from_u128(0xf3392b0822b70005940c7a398e4b70f3)
    } else if i == 11 {
        U256::from_u128(0xe7159475a2c29b7443b29c7fa6e889d9)
    } else if i == 12 {
        U256::from_u128(0xd097f3bdfd2022b8845ad8f792aa5825)
    } else if i == 13 {
        U256::from_u128(0xa9f746462d870fdf8a65dc1f90e061e5)
    } else if i == 14 {
        U256::from_u128(0x70d869a156d2a1b890bb3df62baf32f7)
    } else if i == 15 {
        U256::from_u128(0x31be135f97d08fd981231505542fcfa6)
    } else if i == 16 {
        U256::from_u128(0x9aa508b5b7a84e1c677de54f3e99bc9)
    } else if i == 17 {
        U256::from_u128(0x5d6af8dedb81196699c329225ee604)
    } else if i == 18 {
        U256::from_u128(0x2216e584f5fa1ea926041bedfe98)
    } else {
        U256::from_u128(0x48a170391f7dc42444e8fa2)
    }
}

/// `val * mul_by / 2^128`, modulo 2^256.
fn mul_shift(val: U256, mul_by: U256) -> (r: U256)
    ensures
        r@ == wrap(val@ * mul_by@ / p128()),
{
    let (lo, hi) = val.full_mul(mul_by);
    proof {
        let q = lo.hi + hi.lo * p128() + hi.hi * p256();
        div_unique(val@ * mul_by@, p128(), q, lo.lo as int);
        div_unique(q, p256(), hi.hi as int, lo.hi + hi.lo * p128());
    }
    U256 { lo: lo.hi, hi: hi.lo }
}

/// Each constant is, up to rounding, the square of the one before it.
proof fn magic_squares(i: int)
    requires
        0 <= i < 19,
    ensures
        (magic(i + 1) + 2) * p128() >= magic(i) * magic(i),
        (magic(i + 1) - 2) * p128() <= magic(i) * magic(i),
        magic(i + 1) >= 0x4000_0000_0000_0000_0000_00,
        magic(i) >= 0,
{
    let a = magic(i);
    let b = magic(i + 1);
    if i == 0 {
        assert((b + 2) * p128() >= a * a && (b - 2) * p128() <= a * a) by (nonlinear_arith)
            requires
                a == 0xfffcb933bd6fad37aa2d162d1a594001,
                b == 0xfff97272373d413259a46990580e213a,
        ;
    } else if i == 1 {
        assert((b + 2) * p128() >= a * a && (b - 2) * p128() <= a * a) by (nonlinear_arith)
            requires
                a == 0xfff97272373d413259a46990580e213a,
                b == 0xfff2e50f5f656932ef12357cf3c7fdcc,
        ;
    } else if i == 2 {
        assert((b + 2) * p128() >= a * a && (b - 2) * p128() <= a * a) by (nonlinear_arith)
            requires
                a == 0xfff2e50f5f656932ef12357cf3c7fdcc,
                b == 0xffe5caca7e10e4e61c3624eaa0941cd0,
        ;
    } else if i == 3 {
        assert((b + 2) * p128() >= a * a && (b - 2) * p128() <= a * a) by (nonlinear_arith)
            requires
                a == 0xffe5caca7e10e4e61c3624eaa0941cd0,
                b == 0xffcb9843d60f6159c9db58835c926644,
        ;
    } else if i == 4 {
        assert((b + 2) * p128() >= a * a && (b - 2) * p128() <= a * a) by (nonlinear_arith)
            requires
                a == 0xffcb9843d60f6159c9db58835c926644,
                b == 0xff973b41fa98c081472e6896dfb254c0,
        ;
    } else if i == 5 {
        assert((b + 2) * p128() >= a * a && (b - 2) * p128() <= a * a) by (nonlinear_arith)
            requires
                a == 0xff973b41fa98c081472e6896dfb254c0,
                b == 0xff2ea16466c96a3843ec78b326b52861,
        ;
    } else if i == 6 {
        assert((b + 2) * p128() >= a * a && (b - 2) * p128() <= a * a) by (nonlinear_arith)
            requires
                a == 0xff2ea16466c96a3843ec78b326b52861,
                b == 0xfe5dee046a99a2a811c461f1969c3053,
        ;
    } else if i == 7 {
        assert((b + 2) * p128() >= a * a && (b - 2) * p128() <= a * a) by (nonlinear_arith)
            requires
                a == 0xfe5dee046a99a2a811c461f1969c3053,
                b == 0xfcbe86c7900a88aedcffc83b479aa3a4,
        ;
    } else if i == 8 {
        assert((b + 2) * p128() >= a * a && (b - 2) * p128() <= a * a) by (nonlinear_arith)
            requires
                a == 0xfcbe86c7900a88aedcffc83b479aa3a4,
                b == 0xf987a7253ac413176f2b074cf7815e54,
        ;
    } else if i == 9 {
        assert((b + 2) * p128() >= a * a && (b - 2) * p128() <= a * a) by (nonlinear_arith)
            requires
                a == 0xf987a7253ac413176f2b074cf7815e54,
                b == 0xf3392b0822b70005940c7a398e4b70f3,
        ;
    } else if i == 10 {
        assert((b + 2) * p128() >= a * a && (b - 2) * p128() <= a * a) by (nonlinear_arith)
            requires
                a == 0xf3392b0822b70005940c7a398e4b70f3,
                b == 0xe7159475a2c29b7443b29c7fa6e889d9,
        ;
    } else if i == 11 {
        assert((b + 2) * p128() >= a * a && (b - 2) * p128() <= a * a) by (nonlinear_arith)
            requires
                a == 0xe7159475a2c29b7443b29c7fa6e889d9,
                b == 0xd097f3bdfd2022b8845ad8f792aa5825,
        ;
    } else if i == 12 {
        assert((b + 2) * p128() >= a * a && (b - 2) * p128() <= a * a) by (nonlinear_arith)
            requires
                a == 0xd097f3bdfd2022b8845ad8f792aa5825,
                b == 0xa9f746462d870fdf8a65dc1f90e061e5,
        ;
    } else if i == 13 {
        assert((b + 2) * p128() >= a * a && (b - 2) * p128() <= a * a) by (nonlinear_arith)
            requires
                a == 0xa9f746462d870fdf8a65dc1f90e061e5,
                b == 0x70d869a156d2a1b890bb3df62baf32f7,
        ;
    } else if i == 14 {
        assert((b + 2) * p128() >= a * a && (b - 2) * p128() <= a * a) by (nonlinear_arith)
            requires
                a == 0x70d869a156d2a1b890bb3df62baf32f7,
                b == 0x31be135f97d08fd981231505542fcfa6,
        ;
    } else if i == 15 {
        assert((b + 2) * p128() >= a * a && (b - 2) * p128() <= a * a) by (nonlinear_arith)
            requires
                a == 0x31be135f97d08fd981231505542fcfa6,
                b == 0x9aa508b5b7a84e1c677de54f3e99bc9,
        ;
    } else if i == 16 {
        assert((b + 2) * p128() >= a * a && (b - 2) * p128() <= a * a) by (nonlinear_arith)
            requires
                a == 0x9aa508b5b7a84e1c677de54f3e99bc9,
                b == 0x5d6af8dedb81196699c329225ee604,
        ;
    } else if i == 17 {
        assert((b + 2) * p128() >= a * a && (b - 2) * p128() <= a * a) by (nonlinear_arith)
            requires
                a == 0x5d6af8dedb81196699c329225ee604,
                b == 0x2216e584f5fa1ea926041bedfe98,
        ;
    } else if i == 18 {
        assert((b + 2) * p128() >= a * a && (b - 2) * p128() <= a * a) by (nonlinear_arith)
            requires
                a == 0x2216e584f5fa1ea926041bedfe98,
                b == 0x48a170391f7dc42444e8fa2,
        ;
    }
}

/// The logarithm of the first constant, from below: fifty squarings.
proof fn first_magic_ge()
    ensures
        log_ge(magic(0), 144115106863405819),
{
    reveal(log_ge);
    let x = magic(0);
    two_values();
    two_127();
    vstd::arithmetic::power::lemma_pow1(x);
    assert(x * two(0) <= pow(x, 1));
    square_ge(x, 0x1, 0xfffcb933bd6fad37aa2d162d1a594001, 0x0, 0xfff97272373d413259a46990580e2138, 128);
    square_ge(x, 0x2, 0xfff97272373d413259a46990580e2138, 0x80, 0xfff2e50f5f656932ef12357cf3c7fdc8, 128);
    square_ge(x, 0x4, 0xfff2e50f5f656932ef12357cf3c7fdc8, 0x180, 0xffe5caca7e10e4e61c3624eaa0941cc8, 128);
    square_ge(x, 0x8, 0xffe5caca7e10e4e61c3624eaa0941cc8, 0x380, 0xffcb9843d60f6159c9db58835c926633, 128);
    square_ge(x, 0x10, 0xffcb9843d60f6159c9db58835c926633, 0x780, 0xff973b41fa98c081472e6896dfb2549e, 128);
    square_ge(x, 0x20, 0xff973b41fa98c081472e6896dfb2549e, 0xf80, 0xff2ea16466c96a3843ec78b326b5281d, 128);
    square_ge(x, 0x40, 0xff2ea16466c96a3843ec78b326b5281d, 0x1f80, 0xfe5dee046a99a2a811c461f1969c2fcc, 128);
    square_ge(x, 0x80, 0xfe5dee046a99a2a811c461f1969c2fcc, 0x3f80, 0xfcbe86c7900a88aedcffc83b479aa297, 128);
    square_ge(x, 0x100, 0xfcbe86c7900a88aedcffc83b479aa297, 0x7f80, 0xf987a7253ac413176f2b074cf7815c41, 128);
    square_ge(x, 0x200, 0xf987a7253ac413176f2b074cf7815c41, 0xff80, 0xf3392b0822b70005940c7a398e4b6ce7, 128);
    square_ge(x, 0x400, 0xf3392b0822b70005940c7a398e4b6ce7, 0x1ff80, 0xe7159475a2c29b7443b29c7fa6e88228, 128);
    square_ge(x, 0x800, 0xe7159475a2c29b7443b29c7fa6e88228, 0x3ff80, 0xd097f3bdfd2022b8845ad8f792aa4a43, 128);
    square_ge(x, 0x1000, 0xd097f3bdfd2022b8845ad8f792aa4a43, 0x7ff80, 0xa9f746462d870fdf8a65dc1f90e04b44, 128);
    square_ge(x, 0x2000, 0xa9f746462d870fdf8a65dc1f90e04b44, 0xfff80, 0xe1b0d342ada5437121767bec575e29d5, 127);
    square_ge(x, 0x4000, 0xe1b0d342ada5437121767bec575e29d5, 0x1fff7f, 0xc6f84d7e5f423f66048c541550bed49f, 128);
    square_ge(x, 0x8000, 0xc6f84d7e5f423f66048c541550bed49f, 0x3fff7e, 0x9aa508b5b7a84e1c677de54f3e9917d8, 128);
    square_ge(x, 0x10000, 0x9aa508b5b7a84e1c677de54f3e9917d8, 0x7fff7c, 0xbad5f1bdb70232cd33865244bdca7a98, 127);
    square_ge(x, 0x20000, 0xbad5f1bdb70232cd33865244bdca7a98, 0xffff77, 0x885b9613d7e87aa498106fb7fa5c983f, 128);
    square_ge(x, 0x40000, 0x885b9613d7e87aa498106fb7fa5c983f, 0x1ffff6e, 0x9142e0723efb884889d1f447715624fe, 127);
    square_ge(x, 0x80000, 0x9142e0723efb884889d1f447715624fe, 0x3ffff5b, 0xa4d9a773d61316918f140bd96e836e9e, 127);
    square_ge(x, 0x100000, 0xa4d9a773d61316918f140bd96e836e9e, 0x7ffff35, 0xd44f2f3374636dfb6364b38a2cf85871, 127);
    square_ge(x, 0x200000, 0xd44f2f3374636dfb6364b38a2cf85871, 0xffffee9, 0xb0133eab633a729a54b084764f91856a, 128);
    square_ge(x, 0x400000, 0xb0133eab633a729a54b084764f91856a, 0x1ffffe52, 0xf234ef3c0a711e1e7ad2cb08f35dc516, 127);
    square_ge(x, 0x800000, 0xf234ef3c0a711e1e7ad2cb08f35dc516, 0x3ffffd23, 0xe5281f3f93b34479f8487d748db617af, 128);
    square_ge(x, 0x1000000, 0xe5281f3f93b34479f8487d748db617af, 0x7ffffac6, 0xcd20ce3185ed56170e57e3706409846c, 128);
    square_ge(x, 0x2000000, 0xcd20ce3185ed56170e57e3706409846c, 0xfffff60c, 0xa45d8e6f82f35454f434dfa044899340, 128);
    square_ge(x, 0x4000000, 0xa45d8e6f82f35454f434dfa044899340, 0x1ffffec98, 0xd310015f58199d61c4552ceb7a8deb2c, 127);
    square_ge(x, 0x8000000, 0xd310015f58199d61c4552ceb7a8deb2c, 0x3ffffd9af, 0xae03634357271ed58a6c238d7fda68cd, 128);
    square_ge(x, 0x10000000, 0xae03634357271ed58a6c238d7fda68cd, 0x7ffffb3de, 0xec9135f60914bfe7fe565145a828bc6d, 127);
    square_ge(x, 0x20000000, 0xec9135f60914bfe7fe565145a828bc6d, 0xfffff683b, 0xda9c0ddbccd4578d2d669bf9e67c7203, 128);
    square_ge(x, 0x40000000, 0xda9c0ddbccd4578d2d669bf9e67c7203, 0x1ffffed0f6, 0xbaae26bb3d7b576ccd775485eea31610, 128);
    square_ge(x, 0x80000000, 0xbaae26bb3d7b576ccd775485eea31610, 0x3ffffda26c, 0x882186c0c1baede87162be141896111c, 128);
    square_ge(x, 0x100000000, 0x882186c0c1baede87162be141896111c, 0x7ffffb4558, 0x90c74721a4edd5d654eb77fdb87797aa, 127);
    square_ge(x, 0x200000000, 0x90c74721a4edd5d654eb77fdb87797aa, 0xfffff68b2f, 0xa3c1964b073b5076dde110bd77089588, 127);
    square_ge(x, 0x400000000, 0xa3c1964b073b5076dde110bd77089588, 0x1ffffed16dd, 0xd1802f8f0124e4bae20fccf5e9eeacc8, 127);
    square_ge(x, 0x800000000, 0xd1802f8f0124e4bae20fccf5e9eeacc8, 0x3ffffda2e39, 0xab728dd717b534abb335535b6f7c0a91, 128);
    square_ge(x, 0x1000000000, 0xab728dd717b534abb335535b6f7c0a91, 0x7ffffb45cf2, 0xe5a4797ff7a7ad2d75d508c90b31dea7, 127);
    square_ge(x, 0x2000000000, 0xe5a4797ff7a7ad2d75d508c90b31dea7, 0xfffff68ba63, 0xcdffab0ad6b182bd60b5e52a5b21a084, 128);
    square_ge(x, 0x4000000000, 0xcdffab0ad6b182bd60b5e52a5b21a084, 0x1ffffed17546, 0xa5c377458db77c4c60be730d99069e19, 128);
    square_ge(x, 0x8000000000, 0xa5c377458db77c4c60be730d99069e19, 0x3ffffda2eb0c, 0xd6ab19fd286c50d033f90ffe2f710202, 127);
    square_ge(x, 0x10000000000, 0xd6ab19fd286c50d033f90ffe2f710202, 0x7ffffb45d697, 0xb40281cefa6c840e214c423b0dba0af6, 128);
    square_ge(x, 0x20000000000, 0xb40281cefa6c840e214c423b0dba0af6, 0xfffff68badae, 0xfd270d22b26d863e8f7d4d179d8f1c06, 127);
    square_ge(x, 0x40000000000, 0xfd270d22b26d863e8f7d4d179d8f1c06, 0x1ffffed175bdb, 0xfa5635eb95eb63898fc3e34998f1bcae, 128);
    square_ge(x, 0x80000000000, 0xfa5635eb95eb63898fc3e34998f1bcae, 0x3ffffda2eb836, 0xf4cc7e586673dd6f9a62bdeb888650b5, 128);
    square_ge(x, 0x100000000000, 0xf4cc7e586673dd6f9a62bdeb888650b5, 0x7ffffb45d70ec, 0xea1674321e8b4a264ecce900a34d517f, 128);
    square_ge(x, 0x200000000000, 0xea1674321e8b4a264ecce900a34d517f, 0xfffff68bae258, 0xd60d0e63cd3158fcf3e4c4b84764c6ef, 128);
    square_ge(x, 0x400000000000, 0xd60d0e63cd3158fcf3e4c4b84764c6ef, 0x1ffffed175c530, 0xb2f9d4b952006923afd1ce7a08e8ad6a, 128);
    square_ge(x, 0x800000000000, 0xb2f9d4b952006923afd1ce7a08e8ad6a, 0x3ffffda2eb8ae0, 0xfa40bf426e9b19f4e9d63ad001a048c9, 127);
    square_ge(x, 0x1000000000000, 0xfa40bf426e9b19f4e9d63ad001a048c9, 0x7ffffb45d7163f, 0xf4a285edf0226e87fba9d578d38f97eb, 128);
    square_ge(x, 0x2000000000000, 0xf4a285edf0226e87fba9d578d38f97eb, 0xfffff68bae2cfe, 0xe9c6367b58f6a6f163b0c9077430b6bf, 128);
    two_add(0x1ffffed175c5a7c, 127);
    two_pos(0x1ffffed175c5a7c);
    let t = two(0x1ffffed175c5a7c);
    assert(t * two(127) <= 0xe9c6367b58f6a6f163b0c9077430b6bf * t) by (nonlinear_arith)
        requires
            t >= 1,
            two(127) == 0x8000_0000_0000_0000_0000_0000_0000_0000int,
    ;
}

/// The logarithm of the first constant, from above: fifty squarings.
proof fn first_magic_le()
    ensures
        log_le(magic(0), 144115106863405820),
{
    reveal(log_le);
    let x = magic(0);
    two_values();
    two_127();
    vstd::arithmetic::power::lemma_pow1(x);
    assert(pow(x, 1) <= x * two(0));
    square_le(x, 0x1, 0xfffcb933bd6fad37aa2d162d1a594001, 0x0, 0xfff97272373d413259a46990580e2139, 128);
    square_le(x, 0x2, 0xfff97272373d413259a46990580e2139, 0x80, 0xfff2e50f5f656932ef12357cf3c7fdcb, 128);
    square_le(x, 0x4, 0xfff2e50f5f656932ef12357cf3c7fdcb, 0x180, 0xffe5caca7e10e4e61c3624eaa0941ccf, 128);
    square_le(x, 0x8, 0xffe5caca7e10e4e61c3624eaa0941ccf, 0x380, 0xffcb9843d60f6159c9db58835c926642, 128);
    square_le(x, 0x10, 0xffcb9843d60f6159c9db58835c926642, 0x780, 0xff973b41fa98c081472e6896dfb254bd, 128);
    square_le(x, 0x20, 0xff973b41fa98c081472e6896dfb254bd, 0xf80, 0xff2ea16466c96a3843ec78b326b5285c, 128);
    square_le(x, 0x40, 0xff2ea16466c96a3843ec78b326b5285c, 0x1f80, 0xfe5dee046a99a2a811c461f1969c304a, 128);
    square_le(x, 0x80, 0xfe5dee046a99a2a811c461f1969c304a, 0x3f80, 0xfcbe86c7900a88aedcffc83b479aa393, 128);
    square_le(x, 0x100, 0xfcbe86c7900a88aedcffc83b479aa393, 0x7f80, 0xf987a7253ac413176f2b074cf7815e33, 128);
    square_le(x, 0x200, 0xf987a7253ac413176f2b074cf7815e33, 0xff80, 0xf3392b0822b70005940c7a398e4b70b3, 128);
    square_le(x, 0x400, 0xf3392b0822b70005940c7a398e4b70b3, 0x1ff80, 0xe7159475a2c29b7443b29c7fa6e88960, 128);
    square_le(x, 0x800, 0xe7159475a2c29b7443b29c7fa6e88960, 0x3ff80, 0xd097f3bdfd2022b8845ad8f792aa574c, 128);
    square_le(x, 0x1000, 0xd097f3bdfd2022b8845ad8f792aa574c, 0x7ff80, 0xa9f746462d870fdf8a65dc1f90e06083, 128);
    square_le(x, 0x2000, 0xa9f746462d870fdf8a65dc1f90e06083, 0xfff80, 0xe1b0d342ada5437121767bec575e6242, 127);
    square_le(x, 0x4000, 0xe1b0d342ada5437121767bec575e6242, 0x1fff7f, 0xc6f84d7e5f423f66048c541550bf381e, 128);
    square_le(x, 0x8000, 0xc6f84d7e5f423f66048c541550bf381e, 0x3fff7e, 0x9aa508b5b7a84e1c677de54f3e99b282, 128);
    square_le(x, 0x10000, 0x9aa508b5b7a84e1c677de54f3e99b282, 0x7fff7c, 0xbad5f1bdb70232cd33865244bdcbf051, 127);
    square_le(x, 0x20000, 0xbad5f1bdb70232cd33865244bdcbf051, 0xffff77, 0x885b9613d7e87aa498106fb7fa5eb9c2, 128);
    square_le(x, 0x40000, 0x885b9613d7e87aa498106fb7fa5eb9c2, 0x1ffff6e, 0x9142e0723efb884889d1f447715aaf42, 127);
    square_le(x, 0x80000, 0x9142e0723efb884889d1f447715aaf42, 0x3ffff5b, 0xa4d9a773d61316918f140bd96e8dbc9f, 127);
    square_le(x, 0x100000, 0xa4d9a773d61316918f140bd96e8dbc9f, 0x7ffff35, 0xd44f2f3374636dfb6364b38a2d12e360, 127);
    square_le(x, 0x200000, 0xd44f2f3374636dfb6364b38a2d12e360, 0xffffee9, 0xb0133eab633a729a54b084764fbd8bf3, 128);
    square_le(x, 0x400000, 0xb0133eab633a729a54b084764fbd8bf3, 0x1ffffe52, 0xf234ef3c0a711e1e7ad2cb08f3d6e44c, 127);
    square_le(x, 0x800000, 0xf234ef3c0a711e1e7ad2cb08f3d6e44c, 0x3ffffd23, 0xe5281f3f93b34479f8487d748e9b48c9, 128);
    square_le(x, 0x1000000, 0xe5281f3f93b34479f8487d748e9b48c9, 0x7ffffac6, 0xcd20ce3185ed56170e57e37065a3d61d, 128);
    square_le(x, 0x2000000, 0xcd20ce3185ed56170e57e37065a3d61d, 0xfffff60c, 0xa45d8e6f82f35454f434dfa0471b2340, 128);
    square_le(x, 0x4000000, 0xa45d8e6f82f35454f434dfa0471b2340, 0x1ffffec98, 0xd310015f58199d61c4552ceb8126ad6a, 127);
    square_le(x, 0x8000000, 0xd310015f58199d61c4552ceb8126ad6a, 0x3ffffd9af, 0xae03634357271ed58a6c238d8abb0c2b, 128);
    square_le(x, 0x10000000, 0xae03634357271ed58a6c238d8abb0c2b, 0x7ffffb3de, 0xec9135f60914bfe7fe565145c5bc0bfd, 127);
    square_le(x, 0x20000000, 0xec9135f60914bfe7fe565145c5bc0bfd, 0xfffff683b, 0xda9c0ddbccd4578d2d669bfa1d259a0e, 128);
    square_le(x, 0x40000000, 0xda9c0ddbccd4578d2d669bfa1d259a0e, 0x1ffffed0f6, 0xbaae26bb3d7b576ccd7754864bfdd258, 128);
    square_le(x, 0x80000000, 0xbaae26bb3d7b576ccd7754864bfdd258, 0x3ffffda26c, 0x882186c0c1baede87162be14a0bcee4d, 128);
    square_le(x, 0x100000000, 0x882186c0c1baede87162be14a0bcee4d, 0x7ffffb4558, 0x90c74721a4edd5d654eb77feda118068, 127);
    square_le(x, 0x200000000, 0x90c74721a4edd5d654eb77feda118068, 0xfffff68b2f, 0xa3c1964b073b5076dde110c006289da3, 127);
    square_le(x, 0x400000000, 0xa3c1964b073b5076dde110c006289da3, 0x1ffffed16dd, 0xd1802f8f0124e4bae20fccfc7631e07a, 127);
    square_le(x, 0x800000000, 0xd1802f8f0124e4bae20fccfc7631e07a, 0x3ffffda2e39, 0xab728dd717b534abb335536627107700, 128);
    square_le(x, 0x1000000000, 0xab728dd717b534abb335536627107700, 0x7ffffb45cf2, 0xe5a4797ff7a7ad2d75d508e5c0e1313a, 127);
    square_le(x, 0x2000000000, 0xe5a4797ff7a7ad2d75d508e5c0e1313a, 0xfffff68ba63, 0xcdffab0ad6b182bd60b5e55ddd115355, 128);
    square_le(x, 0x4000000000, 0xcdffab0ad6b182bd60b5e55ddd115355, 0x1ffffed17546, 0xa5c377458db77c4c60be73607e0231f6, 128);
    square_le(x, 0x8000000000, 0xa5c377458db77c4c60be73607e0231f6, 0x3ffffda2eb0c, 0xd6ab19fd286c50d033f910d4e2f5c59a, 127);
    square_le(x, 0x10000000000, 0xd6ab19fd286c50d033f910d4e2f5c59a, 0x7ffffb45d697, 0xb40281cefa6c840e214c43a320db6d09, 128);
    square_le(x, 0x20000000000, 0xb40281cefa6c840e214c43a320db6d09, 0xfffff68badae, 0xfd270d22b26d863e8f7d510c6177ebf5, 127);
    square_le(x, 0x40000000000, 0xfd270d22b26d863e8f7d510c6177ebf5, 0x1ffffed175bdb, 0xfa5635eb95eb63898fc3eb1c9927870a, 128);
    square_le(x, 0x80000000000, 0xfa5635eb95eb63898fc3eb1c9927870a, 0x3ffffda2eb836, 0xf4cc7e586673dd6f9a62cd38e9ff48b8, 128);
    square_le(x, 0x100000000000, 0xf4cc7e586673dd6f9a62cd38e9ff48b8, 0x7ffffb45d70ec, 0xea1674321e8b4a264ecd0644978a0077, 128);
    square_le(x, 0x200000000000, 0xea1674321e8b4a264ecd0644978a0077, 0xfffff68bae258, 0xd60d0e63cd3158fcf3e4fa3da422bc19, 128);
    square_le(x, 0x400000000000, 0xd60d0e63cd3158fcf3e4fa3da422bc19, 0x1ffffed175c530, 0xb2f9d4b952006923afd227fa7585ffaf, 128);
    square_le(x, 0x800000000000, 0xb2f9d4b952006923afd227fa7585ffaf, 0x3ffffda2eb8ae0, 0xfa40bf426e9b19f4e9d7351a90d8fb5e, 127);
    square_le(x, 0x1000000000000, 0xfa40bf426e9b19f4e9d7351a90d8fb5e, 0x7ffffb45d7163f, 0xf4a285edf0226e87fbabbed10e8f1980, 128);
    square_le(x, 0x2000000000000, 0xf4a285edf0226e87fbabbed10e8f1980, 0xfffff68bae2cfe, 0xe9c6367b58f6a6f163b47044f855c1d8, 128);
    two_add(0x1ffffed175c5a7c, 128);
    two_pos(0x1ffffed175c5a7c);
    let t = two(0x1ffffed175c5a7c);
    assert(0xe9c6367b58f6a6f163b47044f855c1d8 * t <= t * two(128)) by (nonlinear_arith)
        requires
            t >= 1,
            two(128) == p128(),
    ;
}

proof fn two_127()
    ensures
        two(127) == 0x8000_0000_0000_0000_0000_0000_0000_0000int,
        two(63) == 0x8000_0000_0000_0000int,
        two(31) == 0x8000_0000int,
        two(50) == unit(),
{
    two_values();
    two_step(127);
    two_step(63);
    two_step(31);
    vstd::arithmetic::power2::lemma2_to64();
    vstd::arithmetic::power2::lemma2_to64_rest();
}

/// An upper bound on `log2(sqrt(1.0001))` in units of 2^-50.
#[verifier::inline]
spec fn tick_log_hi() -> int {
    81212450055
}

/// A lower bound on `log2(sqrt(1.0001))` in units of 2^-50.
#[verifier::inline]
spec fn tick_log() -> int {
    81212450050
}

/// What the bounds on the logarithm of a price leave open, in units of 2^-50.
#[verifier::inline]
spec fn tick_log_error() -> int {
    6_000_000
}

/// The logarithms of the constants.
proof fn magic_logs(i: int)
    requires
        0 <= i < 20,
    ensures
        log_ge(magic(i), 128 * unit() - (two(i) * tick_log_hi() - 2)),
        log_le(magic(i), 128 * unit() - (two(i) * tick_log() + 2)),
        0 <= two(i) * tick_log() <= two(i) * tick_log_hi() <= 64 * unit(),
        two(i) <= 524288,
    decreases i,
{
    two_values();
    if i == 0 {
        first_magic_ge();
        first_magic_le();
    } else {
        magic_logs(i - 1);
        magic_squares(i - 1);
        two_step(i - 1);
        two_mono(i, 19);
        vstd::arithmetic::power2::lemma2_to64();
        let x = magic(i - 1);
        let y = magic(i);
        let d = two(i - 1);
        let lo = 128 * unit() - (d * tick_log_hi() - 2);
        let hi = 128 * unit() - (d * tick_log() + 2);
        log_of_two(128);
        log_ge_mul(x, x, lo, lo);
        log_le_mul(x, x, hi, hi);
        log_ge_cancel(y + 2, p128(), x * x, lo + lo, 128 * unit());
        log_le_cancel(y - 2, p128(), x * x, hi + hi, 128 * unit());
        let half = 0x2_0000_0000_0000int;
        log_ge_bump(y, 2, lo + lo - 128 * unit(), 1, half);
        log_le_bump(y - 2, 2, hi + hi - 128 * unit(), 1, half);
    }
}

/// The logarithm of the inverse ratio for the low `k` bits of `a`.
proof fn inverse_logs(a: int, k: int)
    requires
        0 <= a <= 887272,
        0 <= k <= 20,
    ensures
        ({
            let p = a % two(k);
            let r = inverse_ratio(a, k);
            &&& 0 <= p <= a
            &&& log_ge(r, 128 * unit() - p * tick_log_hi() - 2 * k)
            &&& log_le(r, 128 * unit() - p * tick_log())
            &&& 0x8000_0000_0000_0000int <= r <= p128()
        }),
    decreases k,
{
    two_values();
    two_127();
    log_of_two(128);
    log_of_two(63);
    if k == 0 {
        let d0 = two(0);
        assert(a % d0 == 0) by (nonlinear_arith)
            requires
                d0 == 1,
        ;
    } else {
        inverse_logs(a, k - 1);
        magic_logs(k - 1);
        let d = two(k - 1);
        two_pos(k - 1);
        two_step(k - 1);
        let p0 = a % d;
        let r0 = inverse_ratio(a, k - 1);
        let bit = (a / d) % 2;
        let p = a % two(k);
        bit_split(a, d);
        assert(bit * d == (if bit == 1 { d } else { 0 })) by (nonlinear_arith)
            requires
                bit == 0 || bit == 1,
        ;
        if bit == 1 {
            let m = magic(k - 1);
            let x = r0 * m;
            let y = x / p128();
            let lo0 = 128 * unit() - p0 * tick_log_hi() - 2 * (k - 1);
            let hi0 = 128 * unit() - p0 * tick_log();
            let lom = 128 * unit() - (d * tick_log_hi() - 2);
            let him = 128 * unit() - (d * tick_log() + 2);
            assert(m >= 0);
            assert(m <= p128());
            mul_le(r0, m, p128(), p128());
            div_facts(x, p128());
            log_ge_mul(r0, m, lo0, lom);
            log_le_mul(r0, m, hi0, him);
            log_ge_cancel(y + 1, p128(), x, lo0 + lom, 128 * unit());
            log_le_cancel(y, p128(), x, hi0 + him, 128 * unit());
            let lo = lo0 + lom - 128 * unit();
            assert(lo > 63 * unit() + 2);
            log_separates(0x8000_0000_0000_0000int, y + 1, 63 * unit(), lo);
            log_ge_bump(y, 1, lo, 1, 0x2_0000_0000_0000int);
            log_ge_mono(y, y, lo - 2, 128 * unit() - p * tick_log_hi() - 2 * k);
            log_le_mono(y, y, hi0 + him - 128 * unit(), 128 * unit() - p * tick_log());
        } else {
            log_ge_mono(
                r0,
                r0,
                128 * unit() - p0 * tick_log_hi() - 2 * (k - 1),
                128 * unit() - p * tick_log_hi() - 2 * k,
            );
        }
    }
}

/// The low `k` bits are the low `k - 1` bits and the bit above them.
proof fn bit_split(a: int, d: int)
    requires
        a >= 0,
        d >= 1,
    ensures
        a % (2 * d) == a % d + ((a / d) % 2) * d,
        0 <= a % (2 * d) <= a,
{
    div_facts(a, d);
    let q = a / d;
    assert(q >= 0) by (nonlinear_arith)
        requires
            a == q * d + a % d,
            0 <= a % d < d,
            a >= 0,
    ;
    let b = q % 2;
    let r = a % d + b * d;
    assert(0 <= r < 2 * d) by (nonlinear_arith)
        requires
            r == a % d + b * d,
            0 <= a % d < d,
            0 <= b <= 1,
    ;
    assert(a == (q / 2) * (2 * d) + r) by (nonlinear_arith)
        requires
            a == q * d + a % d,
            q == 2 * (q / 2) + b,
            r == a % d + b * d,
    ;
    div_unique(a, 2 * d, q / 2, r);
    assert((q / 2) * (2 * d) >= 0) by (nonlinear_arith)
        requires
            q >= 0,
            d >= 1,
    ;
}

/// The logarithm of the price at a tick lies within `tick_log_error` of
/// `96 + t * log2(sqrt(1.0001))`.
proof fn ratio_logs(t: int)
    requires
        MIN_TICK <= t <= MAX_TICK,
    ensures
        log_ge(ratio_at(t), 96 * unit() + t * tick_log() - tick_log_error()),
        log_le(ratio_at(t), 96 * unit() + t * tick_log() + tick_log_error()),
        0x8000_0000 < ratio_at(t) < 0x1_0000_0000_0000_0000_0000_0000_0000_0000_0000_0000_0000int,
        inverse_ratio(if t > 0 { t } else { -t }, 20) >= 0x8000_0000_0000_0000int,
        inverse_ratio(if t > 0 { t } else { -t }, 20) <= p128(),
{
    reveal(ratio_at);
    two_values();
    two_127();
    vstd::arithmetic::power2::lemma2_to64();
    let a = if t > 0 {
        t
    } else {
        -t
    };
    inverse_logs(a, 20);
    two_mono(20, 20);
    assert(two(20) == 0x100000);
    vstd::arithmetic::div_mod::lemma_small_mod(a as nat, two(20) as nat);
    let inv = inverse_ratio(a, 20);
    let raw = ratio_128(t);
    let lo_inv = 128 * unit() - a * tick_log_hi() - 40;
    let hi_inv = 128 * unit() - a * tick_log();
    log_of_two(32);
    log_of_two(31);
    log_of_two(256);
    // the bounds on the 128-bit ratio
    let (lo, hi) = if t > 0 {
        div_facts(p256() - 1, inv);
        assert(raw * inv <= p256());
        log_le_cancel(raw, inv, p256(), 256 * unit(), lo_inv);
        assert((raw + 1) * inv >= p256()) by (nonlinear_arith)
            requires
                p256() - 1 == raw * inv + (p256() - 1) % inv,
                (p256() - 1) % inv < inv,
        ;
        log_ge_cancel(raw + 1, inv, p256(), 256 * unit(), hi_inv);
        log_of_two(128);
        assert(raw >= p128() - 1) by (nonlinear_arith)
            requires
                (raw + 1) * inv >= p256(),
                inv <= p128(),
                raw >= -1,
                inv >= 1,
        ;
        log_ge_bump(raw, 1, 256 * unit() - hi_inv, 1, 0x2_0000_0000_0000int);
        assert(raw <= 0x2_0000_0000_0000_0000_0000_0000_0000_0000_0000_0000_0000_0000int) by (nonlinear_arith)
            requires
                raw * inv <= p256(),
                inv >= 0x8000_0000_0000_0000int,
        ;
        (256 * unit() - hi_inv - 2, 256 * unit() - lo_inv)
    } else {
        (lo_inv, hi_inv)
    };
    assert(log_ge(raw, lo) && log_le(raw, hi));
    // the bounds on the price
    let r = ratio_at(t);
    let q32 = 0x1_0000_0000int;
    assert(r * q32 >= raw && (r - 1) * q32 <= raw && r >= 1);
    log_ge_cancel(r, q32, raw, lo, 32 * unit());
    log_separates(0x8000_0000, r, 31 * unit(), lo - 32 * unit());
    log_le_cancel(r - 1, q32, raw, hi, 32 * unit());
    log_le_bump(r - 1, 1, hi - 32 * unit(), 0x8_0000, 0x4000_0000);
    log_ge_mono(r, r, lo - 32 * unit(), 96 * unit() + t * tick_log() - tick_log_error());
    log_le_mono(
        r,
        r,
        hi - 32 * unit() + 0x10_0000,
        96 * unit() + t * tick_log() + tick_log_error(),
    );
}

/// A higher tick has a strictly higher price.
pub proof fn ratio_increases(s: int, t: int)
    requires
        MIN_TICK <= s < t <= MAX_TICK,
    ensures
        ratio_at(s) < ratio_at(t),
{
    ratio_logs(s);
    ratio_logs(t);
    log_separates(
        ratio_at(s),
        ratio_at(t),
        96 * unit() + s * tick_log() + tick_log_error(),
        96 * unit() + t * tick_log() - tick_log_error(),
    );
}

/// A higher tick has a higher price.
pub proof fn ratio_mono(s: int, t: int)
    requires
        MIN_TICK <= s <= t <= MAX_TICK,
    ensures
        ratio_at(s) <= ratio_at(t),
{
    if s < t {
        ratio_increases(s, t);
    }
}

/// The prices at the lowest, the zero and the highest tick.
pub proof fn ratio_ends()
    ensures
        ratio_at(MIN_TICK as int) == min_ratio(),
        ratio_at(0) == p96(),
        ratio_at(MAX_TICK as int) == max_ratio(),
{
    reveal(ratio_at);
    two_values();
    vstd::arithmetic::power2::lemma2_to64();
    reveal_with_fuel(inverse_ratio, 21);
    let a = 887272int;
    assert((a / two(0)) % 2 == 0) by {
        assert(two(0) == 1);
    }
    assert(inverse_ratio(a, 1) == 0x100000000000000000000000000000000);
    assert((a / two(1)) % 2 == 0) by {
        assert(two(1) == 2);
    }
    assert(inverse_ratio(a, 2) == 0x100000000000000000000000000000000);
    assert((a / two(2)) % 2 == 0) by {
        assert(two(2) == 4);
    }
    assert(inverse_ratio(a, 3) == 0x100000000000000000000000000000000);
    assert((a / two(3)) % 2 == 1) by {
        assert(two(3) == 8);
    }
    assert(inverse_ratio(a, 4) == 0xffe5caca7e10e4e61c3624eaa0941cd0) by {
        assert(0x100000000000000000000000000000000int * 0xffe5caca7e10e4e61c3624eaa0941cd0int / p128() == 0xffe5caca7e10e4e61c3624eaa0941cd0);
    }
    assert((a / two(4)) % 2 == 0) by {
        assert(two(4) == 16);
    }
    assert(inverse_ratio(a, 5) == 0xffe5caca7e10e4e61c3624eaa0941cd0);
    assert((a / two(5)) % 2 == 1) by {
        assert(two(5) == 32);
    }
    assert(inverse_ratio(a, 6) == 0xff7d10c63a977157da4140deb6f31a7b) by {
        assert(0xffe5caca7e10e4e61c3624eaa0941cd0int * 0xff973b41fa98c081472e6896dfb254c0int / p128() == 0xff7d10c63a977157da4140deb6f31a7b);
    }
    assert((a / two(6)) % 2 == 1) by {
        assert(two(6) == 64);
    }
    assert(inverse_ratio(a, 7) == 0xfeac1d4052f7714818b490c1138ea058) by {
        assert(0xff7d10c63a977157da4140deb6f31a7bint * 0xff2ea16466c96a3843ec78b326b52861int / p128() == 0xfeac1d4052f7714818b490c1138ea058);
    }
    assert((a / two(7)) % 2 == 1) by {
        assert(two(7) == 128);
    }
    assert(inverse_ratio(a, 8) == 0xfd0c3654da9e033741d1a9f93707f6f6) by {
        assert(0xfeac1d4052f7714818b490c1138ea058int * 0xfe5dee046a99a2a811c461f1969c3053int / p128() == 0xfd0c3654da9e033741d1a9f93707f6f6);
    }
    assert((a / two(8)) % 2 == 1) by {
        assert(two(8) == 256);
    }
    assert(inverse_ratio(a, 9) == 0xf9d459c5817dbafa9e376ae84dcfeb8b) by {
        assert(0xfd0c3654da9e033741d1a9f93707f6f6int * 0xfcbe86c7900a88aedcffc83b479aa3a4int / p128() == 0xf9d459c5817dbafa9e376ae84dcfeb8b);
    }
    assert((a / two(9)) % 2 == 0) by {
        assert(two(9) == 512);
    }
    assert(inverse_ratio(a, 10) == 0xf9d459c5817dbafa9e376ae84dcfeb8b);
    assert((a / two(10)) % 2 == 0) by {
        assert(two(10) == 1024);
    }
    assert(inverse_ratio(a, 11) == 0xf9d459c5817dbafa9e376ae84dcfeb8b);
    assert((a / two(11)) % 2 == 1) by {
        assert(two(11) == 2048);
    }
    assert(inverse_ratio(a, 12) == 0xe183ac4e25d5949966242a64e9c80e2f) by {
        assert(0xf9d459c5817dbafa9e376ae84dcfeb8bint * 0xe7159475a2c29b7443b29c7fa6e889d9int / p128() == 0xe183ac4e25d5949966242a64e9c80e2f);
    }
    assert((a / two(12)) % 2 == 0) by {
        assert(two(12) == 4096);
    }
    assert(inverse_ratio(a, 13) == 0xe183ac4e25d5949966242a64e9c80e2f);
    assert((a / two(13)) % 2 == 0) by {
        assert(two(13) == 8192);
    }
    assert(inverse_ratio(a, 14) == 0xe183ac4e25d5949966242a64e9c80e2f);
    assert((a / two(14)) % 2 == 0) by {
        assert(two(14) == 16384);
    }
    assert(inverse_ratio(a, 15) == 0xe183ac4e25d5949966242a64e9c80e2f);
    assert((a / two(15)) % 2 == 1) by {
        assert(two(15) == 32768);
    }
    assert(inverse_ratio(a, 16) == 0x2bd1a4c5d2a1181aca1ef15e64c2e3cf) by {
        assert(0xe183ac4e25d5949966242a64e9c80e2fint * 0x31be135f97d08fd981231505542fcfa6int / p128() == 0x2bd1a4c5d2a1181aca1ef15e64c2e3cf);
    }
    assert((a / two(16)) % 2 == 1) by {
        assert(two(16) == 65536);
    }
    assert(inverse_ratio(a, 17) == 0x1a785cbbdc050483e3be5812760be73) by {
        assert(0x2bd1a4c5d2a1181aca1ef15e64c2e3cfint * 0x9aa508b5b7a84e1c677de54f3e99bc9int / p128() == 0x1a785cbbdc050483e3be5812760be73);
    }
    assert((a / two(17)) % 2 == 0) by {
        assert(two(17) == 131072);
    }
    assert(inverse_ratio(a, 18) == 0x1a785cbbdc050483e3be5812760be73);
    assert((a / two(18)) % 2 == 1) by {
        assert(two(18) == 262144);
    }
    assert(inverse_ratio(a, 19) == 0x3865a6455d07d2bc87c5956d2e) by {
        assert(0x1a785cbbdc050483e3be5812760be73int * 0x2216e584f5fa1ea926041bedfe98int / p128() == 0x3865a6455d07d2bc87c5956d2e);
    }
    assert((a / two(19)) % 2 == 1) by {
        assert(two(19) == 524288);
    }
    assert(inverse_ratio(a, 20) == 0x1000276a221a17501) by {
        assert(0x3865a6455d07d2bc87c5956d2eint * 0x48a170391f7dc42444e8fa2int / p128() == 0x1000276a221a17501);
    }
    assert((0int / two(0)) % 2 == 0) by {
        assert(two(0) == 1);
    }
    assert((0int / two(1)) % 2 == 0) by {
        assert(two(1) == 2);
    }
    assert((0int / two(2)) % 2 == 0) by {
        assert(two(2) == 4);
    }
    assert((0int / two(3)) % 2 == 0) by {
        assert(two(3) == 8);
    }
    assert((0int / two(4)) % 2 == 0) by {
        assert(two(4) == 16);
    }
    assert((0int / two(5)) % 2 == 0) by {
        assert(two(5) == 32);
    }
    assert((0int / two(6)) % 2 == 0) by {
        assert(two(6) == 64);
    }
    assert((0int / two(7)) % 2 == 0) by {
        assert(two(7) == 128);
    }
    assert((0int / two(8)) % 2 == 0) by {
        assert(two(8) == 256);
    }
    assert((0int / two(9)) % 2 == 0) by {
        assert(two(9) == 512);
    }
    assert((0int / two(10)) % 2 == 0) by {
        assert(two(10) == 1024);
    }
    assert((0int / two(11)) % 2 == 0) by {
        assert(two(11) == 2048);
    }
    assert((0int / two(12)) % 2 == 0) by {
        assert(two(12) == 4096);
    }
    assert((0int / two(13)) % 2 == 0) by {
        assert(two(13) == 8192);
    }
    assert((0int / two(14)) % 2 == 0) by {
        assert(two(14) == 16384);
    }
    assert((0int / two(15)) % 2 == 0) by {
        assert(two(15) == 32768);
    }
    assert((0int / two(16)) % 2 == 0) by {
        assert(two(16) == 65536);
    }
    assert((0int / two(17)) % 2 == 0) by {
        assert(two(17) == 131072);
    }
    assert((0int / two(18)) % 2 == 0) by {
        assert(two(18) == 262144);
    }
    assert((0int / two(19)) % 2 == 0) by {
        assert(two(19) == 524288);
    }
    assert((p256() - 1) / 0x1000276a221a17501 == 0xfffd8963efd1fc6a506488495d951d5263988d25fa78259a);
}

/// The square root price at `tick`.
pub fn get_sqrt_ratio_at_tick(tick: i32) -> (r: U256)
    requires
        MIN_TICK <= tick <= MAX_TICK,
    ensures
        r@ == ratio_at(tick as int),
        min_ratio() <= r@ <= max_ratio(),
{
    let abs_tick: u32 = if tick < 0 {
        (-tick) as u32
    } else {
        tick as u32
    };
    let ghost a = abs_tick as int;
    let mut ratio: U256 = Q128();
    let mut rest: u32 = abs_tick;
    let mut i: u32 = 0;
    proof {
        two_values();
    }
    while i < 20
        invariant
            i <= 20,
            a == abs_tick,
            a <= 887272,
            rest == a / two(i as int),
            ratio@ == inverse_ratio(a, i as int),
        decreases 20 - i,
    {
        proof {
            inverse_logs(a, i as int);
            two_step(i as int);
            two_pos(i as int);
            half_quotient(a, two(i as int));
            let m = magic(i as int);
            assert(0 <= m <= p128());
            mul_le(ratio@, m, p128(), p128());
            div_facts(ratio@ * m, p128());
        }
        if rest % 2 == 1 {
            ratio = mul_shift(ratio, magic_constant(i));
        }
        rest = rest / 2;
        i = i + 1;
    }
    proof {
        ratio_logs(tick as int);
        ratio_ends();
        ratio_mono(MIN_TICK as int, tick as int);
        ratio_mono(tick as int, MAX_TICK as int);
        reveal(ratio_at);
    }
    if tick > 0 {
        ratio = MAX_UINT256() / ratio;
    }
    let rem: U256 = ratio % Q32();
    let result: U256 = ratio / Q32();
    if rem.is_zero() {
        result
    } else {
        result + U256::ONE()
    }
}

proof fn half_quotient(a: int, d: int)
    requires
        a >= 0,
        d >= 1,
    ensures
        a / (2 * d) == (a / d) / 2,
{
    div_facts(a, d);
    let q = a / d;
    let r = a % d + (q % 2) * d;
    assert(0 <= r < 2 * d) by (nonlinear_arith)
        requires
            r == a % d + (q % 2) * d,
            0 <= a % d < d,
            0 <= q % 2 <= 1,
    ;
    assert(a == (q / 2) * (2 * d) + r) by (nonlinear_arith)
        requires
            a == q * d + a % d,
            q == 2 * (q / 2) + q % 2,
            r == a % d + (q % 2) * d,
    ;
    div_unique(a, 2 * d, q / 2, r);
}

/// The position of the highest set bit.
pub fn most_significant_bit(x: U256) -> (r: u32)
    requires
        x@ != 0,
    ensures
        r < 256,
        two(r as int) <= x@ < two(r + 1),
{
    x.msb()
}

/// `v / 2^128` rounded down, for a quotient that fits.
fn floor_128(v: I256) -> (r: i64)
    requires
        -0x8000_0000_0000int <= v@ / p128() < 0x8000_0000_0000int,
    ensures
        r == v@ / p128(),
{
    let hi: u128 = v.0.hi;
    proof {
        i256_bits(v);
        let q = if v@ < 0 {
            hi - p128()
        } else {
            hi as int
        };
        div_unique(v@, p128(), q, v.0.lo as int);
    }
    if v.is_negative() {
        -((u128::MAX - hi) as i64) - 1
    } else {
        hi as i64
    }
}

/// One squaring of the logarithm loop keeps the bounds on `z^n`.
proof fn squaring_step(z: int, n: int, r: int, g: int, e: int, f: int, next: int)
    requires
        z >= 0,
        n >= 0,
        e >= 0,
        two(127) <= r < two(128),
        0 <= g <= 0x1000_0000,
        f == 0 || f == 1,
        r * two(e) <= pow(z, n as nat),
        pow(z, n as nat) <= (r + g) * two(e),
        next == r * r / two(127 + f),
        two(127) <= next < two(128),
    ensures
        next * two(2 * e + 127 + f) <= pow(z, (2 * n) as nat),
        pow(z, (2 * n) as nat) <= (next + 4 * g + 2) * two(2 * e + 127 + f),
{
    two_values();
    two_127();
    two_step(127);
    let d = two(127 + f);
    div_facts(r * r, d);
    assert(next * d <= r * r);
    square_ge(z, n, r, e, next, 127 + f);
    let h = r + g;
    assert(h * h <= (next + 4 * g + 2) * d) by (nonlinear_arith)
        requires
            r * r < (next + 1) * d,
            h == r + g,
            0 <= g <= 0x1000_0000,
            0 <= r < 2 * 0x8000_0000_0000_0000_0000_0000_0000_0000int,
            d >= 0x8000_0000_0000_0000_0000_0000_0000_0000int,
    {
        assert(h * h == r * r + 2 * g * r + g * g) by (nonlinear_arith)
            requires
                h == r + g,
        ;
        assert(2 * g * r <= 4 * g * d) by (nonlinear_arith)
            requires
                0 <= g,
                r <= 2 * d,
        ;
        assert(g * g <= d) by (nonlinear_arith)
            requires
                0 <= g <= 0x1000_0000,
                d >= 0x8000_0000_0000_0000_0000_0000_0000_0000int,
        ;
        assert((next + 4 * g + 2) * d == (next + 1) * d + 4 * g * d + d) by (nonlinear_arith);
    }
    assert(r * r < (next + 1) * d) by (nonlinear_arith)
        requires
            r * r == next * d + r * r % d,
            r * r % d < d,
    ;
    square_le(z, n, h, e, next + 4 * g + 2, 127 + f);
}

/// The mantissa of `x`: its top 128 bits, with the exponent that `msb` gives.
proof fn mantissa(x: int, msb: int, r: int)
    requires
        64 <= msb < 192,
        two(msb) <= x < two(msb + 1),
        msb >= 128 ==> r == x / two(msb - 127),
        msb < 128 ==> r == x * two(127 - msb),
    ensures
        two(127) <= r < two(128),
        r * two(msb + 1) <= x * two(128),
        x * two(128) <= (r + 1) * two(msb + 1),
{
    two_pos(msb + 1);
    if msb >= 128 {
        let s = msb - 127;
        let d = two(s);
        two_pos(s);
        two_add(127, s);
        two_add(128, s);
        div_facts(x, d);
        assert(two(127) <= r < two(128)) by (nonlinear_arith)
            requires
                two(127) * d <= x < two(128) * d,
                x == r * d + x % d,
                0 <= x % d < d,
        ;
        let t = two(128);
        assert(r * (t * d) <= x * t) by (nonlinear_arith)
            requires
                x == r * d + x % d,
                0 <= x % d,
                t >= 1,
        {
            assert(r * (t * d) == (r * d) * t) by (nonlinear_arith);
            assert((r * d) * t <= x * t) by (nonlinear_arith)
                requires
                    r * d <= x,
                    t >= 1,
            ;
        }
        two_pos(128);
        assert(x * t <= (r + 1) * (t * d)) by (nonlinear_arith)
            requires
                x == r * d + x % d,
                x % d < d,
                t >= 1,
        {
            assert((r + 1) * (t * d) == ((r + 1) * d) * t) by (nonlinear_arith);
            assert(x <= (r + 1) * d) by (nonlinear_arith)
                requires
                    x == r * d + x % d,
                    x % d < d,
            ;
            assert(x * t <= ((r + 1) * d) * t) by (nonlinear_arith)
                requires
                    x <= (r + 1) * d,
                    t >= 1,
            ;
        }
    } else {
        let k = 127 - msb;
        let d = two(k);
        two_pos(k);
        two_add(msb, k);
        two_add(msb + 1, k);
        assert(two(127) <= r < two(128)) by (nonlinear_arith)
            requires
                r == x * d,
                two(msb) <= x < two(msb + 1),
                two(127) == two(msb) * d,
                two(128) == two(msb + 1) * d,
                d >= 1,
        ;
        let t = two(msb + 1);
        assert(r * t == x * two(128)) by (nonlinear_arith)
            requires
                r == x * d,
                two(128) == t * d,
        ;
        assert((r + 1) * t == r * t + t) by (nonlinear_arith);
    }
}

/// The logarithm in units of 2^-14 that the loop arrives at brackets the price:
/// `2^m <= (x / 2^96)^(2^14)`, which is below `2^(m + 1)` up to a tiny part.
proof fn fourteen_bits(x: int, msb: int, frac: int, z: int, r: int, g: int, e: int)
    requires
        0 < x,
        64 <= msb < 192,
        0 <= frac < 0x4000,
        z == x * two(160),
        two(127) <= r < two(128),
        0 <= g <= 0x1_0000_0000,
        e == (msb + 1) * 0x4000 + 127 * 0x3FFF + frac,
        r * two(e) <= pow(z, 0x4000),
        pow(z, 0x4000) <= (r + g) * two(e),
    ensures
        ({
            let m = (msb - 128) * 0x4000 + frac;
            &&& log_ge(x, 96 * unit() + m * 0x10_0000_0000)
            &&& log_le(x, 96 * unit() + (m + 1) * 0x10_0000_0000 + 1)
        }),
{
    let m = (msb - 128) * 0x4000 + frac;
    two_pos(160);
    two_pos(e);
    assert(z >= 0) by (nonlinear_arith)
        requires
            z == x * two(160),
            x > 0,
            two(160) >= 1,
    ;
    two_add(127, e);
    let t = two(e);
    assert(two(127) * t <= r * t) by (nonlinear_arith)
        requires
            two(127) <= r,
            t >= 1,
    ;
    scaled_log_ge(z, 127 + e);
    assert((r + g) * t <= (two(128) + g) * t) by (nonlinear_arith)
        requires
            r < two(128),
            t >= 1,
    ;
    scaled_log_le(z, g, e);
    log_of_two(160);
    log_ge_cancel(x, two(160), z, (127 + e) * 0x10_0000_0000, 160 * unit());
    log_le_cancel(x, two(160), z, (128 + e) * 0x10_0000_0000 + 1, 160 * unit());
}

/// The two candidate ticks bracket the price.
proof fn candidates(x: int, m: int, low: int, high: int)
    requires
        min_ratio() <= x < max_ratio(),
        -0x10_0000 <= m < 0x10_0000,
        log_ge(x, 96 * unit() + m * 0x10_0000_0000),
        log_le(x, 96 * unit() + (m + 1) * 0x10_0000_0000 + 1),
        low == (m * (0x4_0000_0000_0000 * 255738958999603826347141int)
            - 3402992956809132418596140100660247210int) / p128(),
        high == (m * (0x4_0000_0000_0000 * 255738958999603826347141int)
            + 291339464771989622907027621153398088495int) / p128(),
    ensures
        low <= high <= low + 1,
        low < MAX_TICK,
        MIN_TICK <= high <= MAX_TICK,
        low >= MIN_TICK ==> ratio_at(low) <= x,
        high < MAX_TICK ==> x < ratio_at(high + 1),
{
    ratio_ends();
    ratio_logs(MIN_TICK as int);
    ratio_logs(MAX_TICK as int);
    let lo = 96 * unit() + m * 0x10_0000_0000;
    let hi = 96 * unit() + (m + 1) * 0x10_0000_0000 + 1;
    let e = tick_log_error();
    // the candidates against the logarithm of the price
    assert(low * tick_log() + e < m * 0x10_0000_0000);
    assert((high + 1) * tick_log() - e > (m + 1) * 0x10_0000_0000 + 1);
    // the ends
    if low >= MAX_TICK {
        log_separates(max_ratio(), x, 96 * unit() + MAX_TICK * tick_log() + e, lo);
    }
    if high < MIN_TICK {
        log_separates(x, min_ratio(), hi, 96 * unit() + MIN_TICK * tick_log() - e);
    }
    if low >= MIN_TICK {
        ratio_logs(low);
        log_separates(ratio_at(low), x, 96 * unit() + low * tick_log() + e, lo);
    }
    if high < MAX_TICK {
        ratio_logs(high + 1);
        log_separates(x, ratio_at(high + 1), hi, 96 * unit() + (high + 1) * tick_log() - e);
    }
}

/// The tick of a square root price: the highest one whose price does not exceed it.
pub fn get_tick_at_sqrt_ratio(sqrt_ratio_x96: U256) -> (tick: i32)
    requires
        min_ratio() <= sqrt_ratio_x96@ < max_ratio(),
    ensures
        MIN_TICK <= tick < MAX_TICK,
        ratio_at(tick as int) <= sqrt_ratio_x96@ < ratio_at(tick + 1),
{
    let ghost x = sqrt_ratio_x96@;
    proof {
        two_values();
        two_127();
    }
    let sqrt_ratio_x128: U256 = sqrt_ratio_x96 << 32;
    let msb: u32 = most_significant_bit(sqrt_ratio_x128);
    proof {
        assert(sqrt_ratio_x128@ == x * 0x1_0000_0000);
        if msb < 64 {
            two_mono(msb + 1, 64);
        }
        if msb >= 192 {
            two_mono(192, msb as int);
        }
    }
    let mut r: U256 = if msb >= 128 {
        sqrt_ratio_x128 >> (msb - 127)
    } else {
        proof {
            two_add(msb + 1, 127 - msb);
            two_pos(127 - msb);
            let t = two(127 - msb);
            assert(0 <= sqrt_ratio_x128@ * t < two(msb + 1) * t) by (nonlinear_arith)
                requires
                    0 <= sqrt_ratio_x128@ < two(msb + 1),
                    t >= 1,
            ;
        }
        sqrt_ratio_x128 << (127 - msb)
    };
    let ghost z = x * two(160);
    let ghost mut g: int = 1;
    let ghost mut e: int = msb + 1;
    let mut frac: i64 = 0;
    let mut i: u32 = 0;
    proof {
        two_add(32, 128);
        mantissa(sqrt_ratio_x128@, msb as int, r@);
        assert(z == sqrt_ratio_x128@ * two(128)) by (nonlinear_arith)
            requires
                z == x * (two(32) * two(128)),
                sqrt_ratio_x128@ == x * two(32),
                two(160) == two(32) * two(128),
        ;
        vstd::arithmetic::power::lemma_pow1(z);
        assert(z >= 0) by (nonlinear_arith)
            requires
                z == x * two(160),
                x >= 0,
                two(160) >= 0,
        ;
    }
    while i < 14
        invariant
            i <= 14,
            two(127) <= r@ < two(128),
            two(127) == 0x8000_0000_0000_0000_0000_0000_0000_0000int,
            two(128) == p128(),
            two(0) == 1,
            two(1) == 2,
            z >= 0,
            0 <= frac < two(i as int),
            two(i as int) <= 0x4000,
            1 <= g <= 2 * two(2 * i) - 1,
            e == (msb + 1) * two(i as int) + 127 * (two(i as int) - 1) + frac,
            64 <= msb < 192,
            r@ * two(e) <= pow(z, two(i as int) as nat),
            pow(z, two(i as int) as nat) <= (r@ + g) * two(e),
        decreases 14 - i,
    {
        let ghost before = r@;
        proof {
            let b = before;
            assert(0x4000_0000_0000_0000_0000_0000_0000_0000_0000_0000_0000_0000_0000_0000_0000_0000int
                <= b * b < p256()) by (nonlinear_arith)
                requires
                    0x8000_0000_0000_0000_0000_0000_0000_0000int <= b < p128(),
            ;
            two_step(127);
        }
        let squared: U256 = r.wrapping_mul(r) >> 127;
        let f: U256 = squared >> 128;
        proof {
            div_facts(before * before, two(127));
            assert(two(127) <= squared@ < 2 * two(128));
            assert(f@ == 0 || f@ == 1);
        }
        let bit: u32 = f.lo as u32;
        r = squared >> bit;
        frac = 2 * frac + bit as i64;
        proof {
            two_step(i as int);
            two_step(2 * i);
            two_step(2 * i + 1);
            if i < 13 {
                two_mono(i + 1, 14);
            }
            vstd::arithmetic::power2::lemma2_to64();
            two_mono(2 * i, 26);
            if bit == 1 {
                two_step(127);
                half_quotient(before * before, two(127));
            } else {
                crate::types::unit_quotient(squared@);
            }
            assert(r@ == before * before / two(127 + bit));
            squaring_step(z, two(i as int), before, g, e, bit as int, r@);
            assert(2 * e + 127 + bit == (msb + 1) * two(i + 1) + 127 * (two(i + 1) - 1) + frac) by (nonlinear_arith)
                requires
                    two(i + 1) == 2 * two(i as int),
                    e == (msb + 1) * two(i as int) + 127 * (two(i as int) - 1) + (frac - bit) / 2,
                    frac == 2 * ((frac - bit) / 2) + bit,
            ;
            g = 4 * g + 2;
            e = 2 * e + 127 + bit;
        }
        i = i + 1;
    }
    let m: i64 = (msb as i64 - 128) * 0x4000 + frac;
    proof {
        vstd::arithmetic::power2::lemma2_to64();
        fourteen_bits(x, msb as int, frac as int, z, r@, g, e);
    }
    // 2^50 times the ratio of the two logarithms
    let scale: U256 = U256::from_u128(255738958999603826347141u128) << 50;
    proof {
        assert(scale@ == 0x4_0000_0000_0000 * 255738958999603826347141int);
    }
    let log_sqrt10001: I256 = I256::from_i32(m as i32).wrapping_mul(I256(scale));
    proof {
        let sc = I256(scale)@;
        let k = 0x4_0000_0000_0000 * 255738958999603826347141int;
        assert(sc == k);
        assert(m * sc == m * k) by (nonlinear_arith)
            requires
                sc == k,
        ;
        assert(-0x8000_0000 * p128() < m * k < 0x8000_0000 * p128());
        wrap_signed_facts(m * k);
        assert(log_sqrt10001@ == m * k);
        wrap_signed_facts(m * k - 3402992956809132418596140100660247210int);
        wrap_signed_facts(m * k + 291339464771989622907027621153398088495int);
    }
    let low: i64 = floor_128(
        log_sqrt10001 - I256(U256::from_u128(3402992956809132418596140100660247210u128)),
    );
    let high: i64 = floor_128(
        log_sqrt10001 + I256(U256::from_u128(291339464771989622907027621153398088495u128)),
    );
    proof {
        candidates(x, m as int, low as int, high as int);
    }
    if low == high {
        low as i32
    } else if get_sqrt_ratio_at_tick(high as i32) <= sqrt_ratio_x96 {
        proof {
            if high == MAX_TICK {
                ratio_ends();
            }
        }
        high as i32
    } else {
        proof {
            ratio_ends();
        }
        low as i32
    }
}

/// The tick of a price is unique.
pub proof fn tick_unique(x: int, s: int, t: int)
    requires
        MIN_TICK <= s < MAX_TICK,
        MIN_TICK <= t < MAX_TICK,
        ratio_at(s) <= x < ratio_at(s + 1),
        ratio_at(t) <= x < ratio_at(t + 1),
    ensures
        s == t,
{
    if s < t {
        ratio_mono(s + 1, t);
    } else if t < s {
        ratio_mono(t + 1, s);
    }
}

/// The tick of the price at a tick is that tick.
pub proof fn tick_round_trip(t: int, back: int)
    requires
        MIN_TICK <= t < MAX_TICK,
        MIN_TICK <= back < MAX_TICK,
        ratio_at(back) <= ratio_at(t) < ratio_at(back + 1),
    ensures
        back == t,
{
    ratio_increases(t, t + 1);
    tick_unique(ratio_at(t), t, back);
}

/// A higher price never has a lower tick.
pub proof fn tick_monotone(x: int, y: int, s: int, t: int)
    requires
        x <= y,
        MIN_TICK <= s < MAX_TICK,
        MIN_TICK <= t < MAX_TICK,
        ratio_at(s) <= x < ratio_at(s + 1),
        ratio_at(t) <= y < ratio_at(t + 1),
    ensures
        s <= t,
{
    if t < s {
        ratio_mono(t + 1, s);
    }
}

/// The number of usable ticks at a spacing, read as an unsigned 128-bit word.
pub open spec fn usable_ticks(spacing: int) -> int {
    if spacing > 0 {
        2 * (MAX_TICK as int / spacing) + 1
    } else {
        extend_128(1 - 2 * (MAX_TICK as int / (-spacing)))
    }
}

/// The largest gross liquidity of one tick: 2^128 - 1 shared among the usable ticks.
pub fn tick_spacing_to_max_liquidity_per_tick(tick_spacing: i32) -> (r: U256)
    requires
        tick_spacing != 0,
    ensures
        r@ == (p128() - 1) / usable_ticks(tick_spacing as int),
        tick_spacing > 0 ==> r@ < p128(),
{
    let per_side: i64 = if tick_spacing > 0 {
        887272 / tick_spacing as i64
    } else {
        887272 / -(tick_spacing as i64)
    };
    proof {
        let d = if tick_spacing > 0 {
            tick_spacing as int
        } else {
            -tick_spacing
        };
        div_facts(887272, d);
        assert(0 <= per_side <= 887272) by (nonlinear_arith)
            requires
                887272 == per_side * d + 887272int % d,
                0 <= 887272int % d < d,
                d >= 1,
        ;
    }
    let ticks: u128 = if tick_spacing > 0 {
        (2 * per_side + 1) as u128
    } else if per_side == 0 {
        1
    } else {
        u128::MAX - (2 * per_side - 2) as u128
    };
    proof {
        let n = ticks as int;
        assert(n == usable_ticks(tick_spacing as int));
        div_facts(p128() - 1, n);
        let q = (p128() - 1) / n;
        assert(q < p128()) by (nonlinear_arith)
            requires
                p128() - 1 == q * n + (p128() - 1) % n,
                0 <= (p128() - 1) % n,
                n >= 1,
        ;
    }
    MAX_UINT128() / U256::from_u128(ticks)
}

} // verus!
