use vstd::prelude::*;

verus! {

/// Largest rating gap (winner's score minus loser's score) at which the winner
/// still gains at least `k + 1` points, for `k` in `0..31`: the integer part of
/// `400 * log10((31 - k) / (k + 1))`.
pub open spec fn gain_thresholds() -> Seq<int> {
    seq![
        596, 470, 394, 338, 292, 254, 221, 190, 162, 136, 112, 88, 65, 43, 21, 0,
        -22, -44, -66, -89, -113, -137, -163, -191, -222, -255, -293, -339, -395, -471, -597,
    ]
}

/// Rating gap at or below which the loser's expected score rounds to one in double
/// precision, so that the winner takes the whole factor of 32.
pub open spec fn full_gain_gap() -> int {
    -6382
}

/// Number of thresholds from index `k` on that the gap does not exceed.
pub open spec fn thresholds_above(gap: int, k: nat) -> int
    decreases 31 - k,
{
    if k >= 31 {
        0
    } else {
        (if gap <= gain_thresholds()[k as int] { 1int } else { 0int }) + thresholds_above(gap, k + 1)
    }
}

/// Points that the winner takes from the loser: the integer part of
/// `32 / (1 + 10^(gap / 400))`, where `gap` is the winner's score minus the
/// loser's.
pub open spec fn elo_gain(gap: int) -> int {
    if gap <= full_gain_gap() { 32 } else { thresholds_above(gap, 0) }
}

fn gain_for_gap(gap: i64) -> (r: i32)
    ensures r == elo_gain(gap as int),
{
    if gap <= -6382 {
        return 32;
    }
    let thresholds: [i64; 31] = [
        596, 470, 394, 338, 292, 254, 221, 190, 162, 136, 112, 88, 65, 43, 21, 0,
        -22, -44, -66, -89, -113, -137, -163, -191, -222, -255, -293, -339, -395, -471, -597,
    ];
    proof {
        assert(thresholds@ =~= gain_thresholds().map_values(|v: int| v as i64));
    }
    let mut gain: i32 = 0;
    let mut k: usize = 31;
    while k > 0
        invariant
            k <= 31,
            thresholds@ == gain_thresholds().map_values(|v: int| v as i64),
            gain == thresholds_above(gap as int, k as nat),
            0 <= gain <= 31 - k,
        decreases k,
    {
        k = k - 1;
        if gap <= thresholds[k] {
            gain = gain + 1;
        }
    }
    gain
}

pub proof fn lemma_thresholds_above_bounds(gap: int, k: nat)
    ensures 0 <= thresholds_above(gap, k) <= if k >= 31 { 0 } else { 31 - k },
    decreases 31 - k,
{
    if k < 31 { lemma_thresholds_above_bounds(gap, k + 1); }
}

/// The winner gains between 0 and 32 points.
pub proof fn lemma_gain_bounds(gap: int)
    ensures 0 <= elo_gain(gap) <= 32,
{
    lemma_thresholds_above_bounds(gap, 0);
}

pub proof fn lemma_thresholds_above_monotone(g1: int, g2: int, k: nat)
    requires g1 <= g2,
    ensures thresholds_above(g1, k) >= thresholds_above(g2, k),
    decreases 31 - k,
{
    if k < 31 { lemma_thresholds_above_monotone(g1, g2, k + 1); }
}

/// Beating a stronger opponent never gains fewer points than beating a weaker one.
pub proof fn lemma_gain_monotone(g1: int, g2: int)
    requires g1 <= g2,
    ensures elo_gain(g1) >= elo_gain(g2),
{
    lemma_thresholds_above_monotone(g1, g2, 0);
    lemma_thresholds_above_bounds(g1, 0);
}

/// Equal scores split the factor evenly: the winner gains 16 points.
pub proof fn lemma_gain_even_match()
    ensures elo_gain(0) == 16,
{
    reveal_with_fuel(thresholds_above, 32);
}

/// Piecewise form of the gain: the number of thresholds that the gap does not exceed.
pub open spec fn gain_steps(gap: int) -> int {
    if gap > 596 { 0 } else if gap > 470 { 1 } else if gap > 394 { 2 } else if gap > 338 { 3 }
    else if gap > 292 { 4 } else if gap > 254 { 5 } else if gap > 221 { 6 } else if gap > 190 { 7 }
    else if gap > 162 { 8 } else if gap > 136 { 9 } else if gap > 112 { 10 } else if gap > 88 { 11 }
    else if gap > 65 { 12 } else if gap > 43 { 13 } else if gap > 21 { 14 } else if gap > 0 { 15 }
    else if gap > -22 { 16 } else if gap > -44 { 17 } else if gap > -66 { 18 } else if gap > -89 { 19 }
    else if gap > -113 { 20 } else if gap > -137 { 21 } else if gap > -163 { 22 } else if gap > -191 { 23 }
    else if gap > -222 { 24 } else if gap > -255 { 25 } else if gap > -293 { 26 } else if gap > -339 { 27 }
    else if gap > -395 { 28 } else if gap > -471 { 29 } else if gap > -597 { 30 } else { 31 }
}

pub proof fn lemma_thresholds_above_steps(gap: int)
    ensures thresholds_above(gap, 0) == gain_steps(gap),
{
    reveal_with_fuel(thresholds_above, 32);
}

/// The gains of the two outcomes of one pairing add up to the full factor of 32,
/// or to 31 where both are rounded down.
#[verifier::rlimit(60)]
pub proof fn lemma_gain_symmetric(gap: int)
    ensures
        31 <= elo_gain(gap) + elo_gain(-gap) <= 32,
        gap == 0 ==> elo_gain(gap) + elo_gain(-gap) == 32,
{
    lemma_thresholds_above_steps(gap);
    lemma_thresholds_above_steps(-gap);
}

/// Records a win: the winner takes `elo_gain(gap)` points from the loser, where
/// `gap` is the winner's score minus the loser's; the winner's win count and the
/// loser's loss count go up by one.
pub fn update_stats(win_score: &mut i32, win_wins: &mut i32, lose_score: &mut i32, lose_losses: &mut i32)
    requires
        i32::MIN <= *old(win_score) - *old(lose_score) <= i32::MAX,
        *old(win_score) + elo_gain(*old(win_score) - *old(lose_score)) <= i32::MAX,
        *old(lose_score) - elo_gain(*old(win_score) - *old(lose_score)) >= i32::MIN,
        *old(win_wins) < i32::MAX,
        *old(lose_losses) < i32::MAX,
    ensures
        *final(win_score) == *old(win_score) + elo_gain(*old(win_score) - *old(lose_score)),
        *final(lose_score) == *old(lose_score) - elo_gain(*old(win_score) - *old(lose_score)),
        *final(win_score) + *final(lose_score) == *old(win_score) + *old(lose_score),
        *final(win_wins) == *old(win_wins) + 1,
        *final(lose_losses) == *old(lose_losses) + 1,
{
    let gap = (*win_score - *lose_score) as i64;
    let diff = gain_for_gap(gap);
    proof { lemma_gain_bounds(gap as int); }
    *win_score += diff;
    *lose_score -= diff;
    *win_wins += 1;
    *lose_losses += 1;
}

/// `b` to the power `e`.
pub open spec fn power(b: int, e: nat) -> int
    decreases e,
{
    if e == 0 { 1 } else { b * power(b, (e - 1) as nat) }
}

/// Whether `10^(gap / 400) <= a / b`, for `b > 0`: both sides raised to the 400th
/// power, `10^gap * b^400 <= a^400`, with the power of ten on the other side where
/// the gap is negative.
pub open spec fn ten_root_at_most(gap: int, a: nat, b: nat) -> bool {
    if gap >= 0 {
        power(10, gap as nat) * power(b as int, 400) <= power(a as int, 400)
    } else {
        power(b as int, 400) <= power(10, (-gap) as nat) * power(a as int, 400)
    }
}

pub proof fn lemma_power_next(b: int, e: nat)
    ensures power(b, e + 1) == b * power(b, e),
{
}

pub proof fn lemma_power_double(b: int, e: nat)
    ensures power(b, 2 * e) == power(b, e) * power(b, e),
    decreases e,
{
    if e > 0 {
        lemma_power_double(b, (e - 1) as nat);
        let p = power(b, (e - 1) as nat);
        let q = power(b, (2 * e - 2) as nat);
        assert(power(b, 2 * e) == b * (b * q)) by {
            lemma_power_next(b, (2 * e - 1) as nat);
            lemma_power_next(b, (2 * e - 2) as nat);
        }
        assert(power(b, e) == b * p);
        assert(q == p * p);
        assert(b * (b * (p * p)) == (b * p) * (b * p)) by (nonlinear_arith);
    }
}

/// `power(b, m)` split on the last bit of `m`: the base squared to half the power,
/// times `b` where `m` is odd.
pub proof fn lemma_power_halve(b: int, m: nat)
    ensures power(b, m) == (if m % 2 == 1 { b } else { 1 }) * power(b * b, m / 2),
    decreases m,
{
    let h = m / 2;
    lemma_power_squares(b, h);
    lemma_power_double(b, h);
    if m % 2 == 1 {
        lemma_power_next(b, 2 * h);
        assert(m == 2 * h + 1);
    } else {
        assert(m == 2 * h);
    }
}

/// The square of a power is the power of the square.
pub proof fn lemma_power_squares(b: int, e: nat)
    ensures power(b * b, e) == power(b, e) * power(b, e),
    decreases e,
{
    if e > 0 {
        lemma_power_squares(b, (e - 1) as nat);
        let p = power(b, (e - 1) as nat);
        assert(power(b, e) == b * p);
        assert((b * b) * (p * p) == (b * p) * (b * p)) by (nonlinear_arith);
    }
}

/// `x` to the 400th power, by squaring.
pub open spec fn pow400(x: int) -> int {
    let p2 = x * x;
    let p3 = x * p2;
    let p6 = p3 * p3;
    let p12 = p6 * p6;
    let p24 = p12 * p12;
    let p25 = x * p24;
    let p50 = p25 * p25;
    let p100 = p50 * p50;
    let p200 = p100 * p100;
    p200 * p200
}

pub proof fn lemma_pow400(x: int)
    ensures power(x, 400) == pow400(x),
{
    reveal_with_fuel(power, 2);
    lemma_power_double(x, 1);
    lemma_power_next(x, 2);
    lemma_power_double(x, 3);
    lemma_power_double(x, 6);
    lemma_power_double(x, 12);
    lemma_power_next(x, 24);
    lemma_power_double(x, 25);
    lemma_power_double(x, 50);
    lemma_power_double(x, 100);
    lemma_power_double(x, 200);
}

/// Ten to the power `t`, for `t < 1024`, bit by bit of `t`.
pub open spec fn ten_bits(t: nat) -> int {
    let b1 = 10int;
    let b2 = b1 * b1;
    let b4 = b2 * b2;
    let b8 = b4 * b4;
    let b16 = b8 * b8;
    let b32 = b16 * b16;
    let b64 = b32 * b32;
    let b128 = b64 * b64;
    let b256 = b128 * b128;
    let b512 = b256 * b256;
    let m1 = t / 2;
    let m2 = m1 / 2;
    let m3 = m2 / 2;
    let m4 = m3 / 2;
    let m5 = m4 / 2;
    let m6 = m5 / 2;
    let m7 = m6 / 2;
    let m8 = m7 / 2;
    let m9 = m8 / 2;
    (if t % 2 == 1 { b1 } else { 1 }) * ((if m1 % 2 == 1 { b2 } else { 1 }) * ((if m2 % 2 == 1 { b4 } else { 1 }) * (
    (if m3 % 2 == 1 { b8 } else { 1 }) * ((if m4 % 2 == 1 { b16 } else { 1 }) * ((if m5 % 2 == 1 { b32 } else { 1 }) * (
    (if m6 % 2 == 1 { b64 } else { 1 }) * ((if m7 % 2 == 1 { b128 } else { 1 }) * ((if m8 % 2 == 1 { b256 } else { 1 }) * (
    (if m9 % 2 == 1 { b512 } else { 1 }) * 1)))))))))
}

pub proof fn lemma_ten_bits(t: nat)
    requires t < 1024,
    ensures power(10, t) == ten_bits(t),
{
    let b1 = 10int;
    let b2 = b1 * b1;
    let b4 = b2 * b2;
    let b8 = b4 * b4;
    let b16 = b8 * b8;
    let b32 = b16 * b16;
    let b64 = b32 * b32;
    let b128 = b64 * b64;
    let b256 = b128 * b128;
    let b512 = b256 * b256;
    let m1 = t / 2;
    let m2 = m1 / 2;
    let m3 = m2 / 2;
    let m4 = m3 / 2;
    let m5 = m4 / 2;
    let m6 = m5 / 2;
    let m7 = m6 / 2;
    let m8 = m7 / 2;
    let m9 = m8 / 2;
    lemma_power_halve(b1, t);
    lemma_power_halve(b2, m1);
    lemma_power_halve(b4, m2);
    lemma_power_halve(b8, m3);
    lemma_power_halve(b16, m4);
    lemma_power_halve(b32, m5);
    lemma_power_halve(b64, m6);
    lemma_power_halve(b128, m7);
    lemma_power_halve(b256, m8);
    lemma_power_halve(b512, m9);
    assert(m9 / 2 == 0);
    assert(power(b512 * b512, 0) == 1);
}


/// Each threshold is the integer part of `400 * log10((31 - k) / (k + 1))`: ten to
/// the threshold over 400 is at most `(31 - k) / (k + 1)`, and ten to one more over
/// 400 is above it.
pub proof fn lemma_threshold_is_log(k: int)
    requires
        0 <= k < 31,
    ensures
        ten_root_at_most(gain_thresholds()[k], (31 - k) as nat, (k + 1) as nat),
        !ten_root_at_most(gain_thresholds()[k] + 1, (31 - k) as nat, (k + 1) as nat),
{
    if k == 0 {
        threshold_0_is_log();
    } else if k == 1 {
        threshold_1_is_log();
    } else if k == 2 {
        threshold_2_is_log();
    } else if k == 3 {
        threshold_3_is_log();
    } else if k == 4 {
        threshold_4_is_log();
    } else if k == 5 {
        threshold_5_is_log();
    } else if k == 6 {
        threshold_6_is_log();
    } else if k == 7 {
        threshold_7_is_log();
    } else if k == 8 {
        threshold_8_is_log();
    } else if k == 9 {
        threshold_9_is_log();
    } else if k == 10 {
        threshold_10_is_log();
    } else if k == 11 {
        threshold_11_is_log();
    } else if k == 12 {
        threshold_12_is_log();
    } else if k == 13 {
        threshold_13_is_log();
    } else if k == 14 {
        threshold_14_is_log();
    } else if k == 15 {
        threshold_15_is_log();
    } else if k == 16 {
        threshold_16_is_log();
    } else if k == 17 {
        threshold_17_is_log();
    } else if k == 18 {
        threshold_18_is_log();
    } else if k == 19 {
        threshold_19_is_log();
    } else if k == 20 {
        threshold_20_is_log();
    } else if k == 21 {
        threshold_21_is_log();
    } else if k == 22 {
        threshold_22_is_log();
    } else if k == 23 {
        threshold_23_is_log();
    } else if k == 24 {
        threshold_24_is_log();
    } else if k == 25 {
        threshold_25_is_log();
    } else if k == 26 {
        threshold_26_is_log();
    } else if k == 27 {
        threshold_27_is_log();
    } else if k == 28 {
        threshold_28_is_log();
    } else if k == 29 {
        threshold_29_is_log();
    } else if k == 30 {
        threshold_30_is_log();
    }
}

proof fn threshold_0_is_log()
    ensures
        ten_root_at_most(596, 31, 1),
        !ten_root_at_most(597, 31, 1),
{
    lemma_pow400(31);
    lemma_pow400(1);
    lemma_ten_bits(596);
    lemma_ten_bits(597);
    assert(power(10, 596) * power(1, 400) <= power(31, 400)) by (nonlinear_arith)
        requires power(10, 596) == ten_bits(596), power(1, 400) == pow400(1), power(31, 400) == pow400(31);
    assert(!(power(10, 597) * power(1, 400) <= power(31, 400))) by (nonlinear_arith)
        requires power(10, 597) == ten_bits(597), power(1, 400) == pow400(1), power(31, 400) == pow400(31);
}

proof fn threshold_1_is_log()
    ensures
        ten_root_at_most(470, 30, 2),
        !ten_root_at_most(471, 30, 2),
{
    lemma_pow400(30);
    lemma_pow400(2);
    lemma_ten_bits(470);
    lemma_ten_bits(471);
    assert(power(10, 470) * power(2, 400) <= power(30, 400)) by (nonlinear_arith)
        requires power(10, 470) == ten_bits(470), power(2, 400) == pow400(2), power(30, 400) == pow400(30);
    assert(!(power(10, 471) * power(2, 400) <= power(30, 400))) by (nonlinear_arith)
        requires power(10, 471) == ten_bits(471), power(2, 400) == pow400(2), power(30, 400) == pow400(30);
}

proof fn threshold_2_is_log()
    ensures
        ten_root_at_most(394, 29, 3),
        !ten_root_at_most(395, 29, 3),
{
    lemma_pow400(29);
    lemma_pow400(3);
    lemma_ten_bits(394);
    lemma_ten_bits(395);
    assert(power(10, 394) * power(3, 400) <= power(29, 400)) by (nonlinear_arith)
        requires power(10, 394) == ten_bits(394), power(3, 400) == pow400(3), power(29, 400) == pow400(29);
    assert(!(power(10, 395) * power(3, 400) <= power(29, 400))) by (nonlinear_arith)
        requires power(10, 395) == ten_bits(395), power(3, 400) == pow400(3), power(29, 400) == pow400(29);
}

proof fn threshold_3_is_log()
    ensures
        ten_root_at_most(338, 28, 4),
        !ten_root_at_most(339, 28, 4),
{
    lemma_pow400(28);
    lemma_pow400(4);
    lemma_ten_bits(338);
    lemma_ten_bits(339);
    assert(power(10, 338) * power(4, 400) <= power(28, 400)) by (nonlinear_arith)
        requires power(10, 338) == ten_bits(338), power(4, 400) == pow400(4), power(28, 400) == pow400(28);
    assert(!(power(10, 339) * power(4, 400) <= power(28, 400))) by (nonlinear_arith)
        requires power(10, 339) == ten_bits(339), power(4, 400) == pow400(4), power(28, 400) == pow400(28);
}

proof fn threshold_4_is_log()
    ensures
        ten_root_at_most(292, 27, 5),
        !ten_root_at_most(293, 27, 5),
{
    lemma_pow400(27);
    lemma_pow400(5);
    lemma_ten_bits(292);
    lemma_ten_bits(293);
    assert(power(10, 292) * power(5, 400) <= power(27, 400)) by (nonlinear_arith)
        requires power(10, 292) == ten_bits(292), power(5, 400) == pow400(5), power(27, 400) == pow400(27);
    assert(!(power(10, 293) * power(5, 400) <= power(27, 400))) by (nonlinear_arith)
        requires power(10, 293) == ten_bits(293), power(5, 400) == pow400(5), power(27, 400) == pow400(27);
}

proof fn threshold_5_is_log()
    ensures
        ten_root_at_most(254, 26, 6),
        !ten_root_at_most(255, 26, 6),
{
    lemma_pow400(26);
    lemma_pow400(6);
    lemma_ten_bits(254);
    lemma_ten_bits(255);
    assert(power(10, 254) * power(6, 400) <= power(26, 400)) by (nonlinear_arith)
        requires power(10, 254) == ten_bits(254), power(6, 400) == pow400(6), power(26, 400) == pow400(26);
    assert(!(power(10, 255) * power(6, 400) <= power(26, 400))) by (nonlinear_arith)
        requires power(10, 255) == ten_bits(255), power(6, 400) == pow400(6), power(26, 400) == pow400(26);
}

proof fn threshold_6_is_log()
    ensures
        ten_root_at_most(221, 25, 7),
        !ten_root_at_most(222, 25, 7),
{
    lemma_pow400(25);
    lemma_pow400(7);
    lemma_ten_bits(221);
    lemma_ten_bits(222);
    assert(power(10, 221) * power(7, 400) <= power(25, 400)) by (nonlinear_arith)
        requires power(10, 221) == ten_bits(221), power(7, 400) == pow400(7), power(25, 400) == pow400(25);
    assert(!(power(10, 222) * power(7, 400) <= power(25, 400))) by (nonlinear_arith)
        requires power(10, 222) == ten_bits(222), power(7, 400) == pow400(7), power(25, 400) == pow400(25);
}

proof fn threshold_7_is_log()
    ensures
        ten_root_at_most(190, 24, 8),
        !ten_root_at_most(191, 24, 8),
{
    lemma_pow400(24);
    lemma_pow400(8);
    lemma_ten_bits(190);
    lemma_ten_bits(191);
    assert(power(10, 190) * power(8, 400) <= power(24, 400)) by (nonlinear_arith)
        requires power(10, 190) == ten_bits(190), power(8, 400) == pow400(8), power(24, 400) == pow400(24);
    assert(!(power(10, 191) * power(8, 400) <= power(24, 400))) by (nonlinear_arith)
        requires power(10, 191) == ten_bits(191), power(8, 400) == pow400(8), power(24, 400) == pow400(24);
}

proof fn threshold_8_is_log()
    ensures
        ten_root_at_most(162, 23, 9),
        !ten_root_at_most(163, 23, 9),
{
    lemma_pow400(23);
    lemma_pow400(9);
    lemma_ten_bits(162);
    lemma_ten_bits(163);
    assert(power(10, 162) * power(9, 400) <= power(23, 400)) by (nonlinear_arith)
        requires power(10, 162) == ten_bits(162), power(9, 400) == pow400(9), power(23, 400) == pow400(23);
    assert(!(power(10, 163) * power(9, 400) <= power(23, 400))) by (nonlinear_arith)
        requires power(10, 163) == ten_bits(163), power(9, 400) == pow400(9), power(23, 400) == pow400(23);
}

proof fn threshold_9_is_log()
    ensures
        ten_root_at_most(136, 22, 10),
        !ten_root_at_most(137, 22, 10),
{
    lemma_pow400(22);
    lemma_pow400(10);
    lemma_ten_bits(136);
    lemma_ten_bits(137);
    assert(power(10, 136) * power(10, 400) <= power(22, 400)) by (nonlinear_arith)
        requires power(10, 136) == ten_bits(136), power(10, 400) == pow400(10), power(22, 400) == pow400(22);
    assert(!(power(10, 137) * power(10, 400) <= power(22, 400))) by (nonlinear_arith)
        requires power(10, 137) == ten_bits(137), power(10, 400) == pow400(10), power(22, 400) == pow400(22);
}

proof fn threshold_10_is_log()
    ensures
        ten_root_at_most(112, 21, 11),
        !ten_root_at_most(113, 21, 11),
{
    lemma_pow400(21);
    lemma_pow400(11);
    lemma_ten_bits(112);
    lemma_ten_bits(113);
    assert(power(10, 112) * power(11, 400) <= power(21, 400)) by (nonlinear_arith)
        requires power(10, 112) == ten_bits(112), power(11, 400) == pow400(11), power(21, 400) == pow400(21);
    assert(!(power(10, 113) * power(11, 400) <= power(21, 400))) by (nonlinear_arith)
        requires power(10, 113) == ten_bits(113), power(11, 400) == pow400(11), power(21, 400) == pow400(21);
}

proof fn threshold_11_is_log()
    ensures
        ten_root_at_most(88, 20, 12),
        !ten_root_at_most(89, 20, 12),
{
    lemma_pow400(20);
    lemma_pow400(12);
    lemma_ten_bits(88);
    lemma_ten_bits(89);
    assert(power(10, 88) * power(12, 400) <= power(20, 400)) by (nonlinear_arith)
        requires power(10, 88) == ten_bits(88), power(12, 400) == pow400(12), power(20, 400) == pow400(20);
    assert(!(power(10, 89) * power(12, 400) <= power(20, 400))) by (nonlinear_arith)
        requires power(10, 89) == ten_bits(89), power(12, 400) == pow400(12), power(20, 400) == pow400(20);
}

proof fn threshold_12_is_log()
    ensures
        ten_root_at_most(65, 19, 13),
        !ten_root_at_most(66, 19, 13),
{
    lemma_pow400(19);
    lemma_pow400(13);
    lemma_ten_bits(65);
    lemma_ten_bits(66);
    assert(power(10, 65) * power(13, 400) <= power(19, 400)) by (nonlinear_arith)
        requires power(10, 65) == ten_bits(65), power(13, 400) == pow400(13), power(19, 400) == pow400(19);
    assert(!(power(10, 66) * power(13, 400) <= power(19, 400))) by (nonlinear_arith)
        requires power(10, 66) == ten_bits(66), power(13, 400) == pow400(13), power(19, 400) == pow400(19);
}

proof fn threshold_13_is_log()
    ensures
        ten_root_at_most(43, 18, 14),
        !ten_root_at_most(44, 18, 14),
{
    lemma_pow400(18);
    lemma_pow400(14);
    lemma_ten_bits(43);
    lemma_ten_bits(44);
    assert(power(10, 43) * power(14, 400) <= power(18, 400)) by (nonlinear_arith)
        requires power(10, 43) == ten_bits(43), power(14, 400) == pow400(14), power(18, 400) == pow400(18);
    assert(!(power(10, 44) * power(14, 400) <= power(18, 400))) by (nonlinear_arith)
        requires power(10, 44) == ten_bits(44), power(14, 400) == pow400(14), power(18, 400) == pow400(18);
}

proof fn threshold_14_is_log()
    ensures
        ten_root_at_most(21, 17, 15),
        !ten_root_at_most(22, 17, 15),
{
    lemma_pow400(17);
    lemma_pow400(15);
    lemma_ten_bits(21);
    lemma_ten_bits(22);
    assert(power(10, 21) * power(15, 400) <= power(17, 400)) by (nonlinear_arith)
        requires power(10, 21) == ten_bits(21), power(15, 400) == pow400(15), power(17, 400) == pow400(17);
    assert(!(power(10, 22) * power(15, 400) <= power(17, 400))) by (nonlinear_arith)
        requires power(10, 22) == ten_bits(22), power(15, 400) == pow400(15), power(17, 400) == pow400(17);
}

proof fn threshold_15_is_log()
    ensures
        ten_root_at_most(0, 16, 16),
        !ten_root_at_most(1, 16, 16),
{
    lemma_pow400(16);
    lemma_pow400(16);
    lemma_ten_bits(0);
    lemma_ten_bits(1);
    assert(power(10, 0) * power(16, 400) <= power(16, 400)) by (nonlinear_arith)
        requires power(10, 0) == ten_bits(0), power(16, 400) == pow400(16), power(16, 400) == pow400(16);
    assert(!(power(10, 1) * power(16, 400) <= power(16, 400))) by (nonlinear_arith)
        requires power(10, 1) == ten_bits(1), power(16, 400) == pow400(16), power(16, 400) == pow400(16);
}

proof fn threshold_16_is_log()
    ensures
        ten_root_at_most(-22, 15, 17),
        !ten_root_at_most(-21, 15, 17),
{
    lemma_pow400(15);
    lemma_pow400(17);
    lemma_ten_bits(22);
    lemma_ten_bits(21);
    assert(power(17, 400) <= power(10, 22) * power(15, 400)) by (nonlinear_arith)
        requires power(10, 22) == ten_bits(22), power(17, 400) == pow400(17), power(15, 400) == pow400(15);
    assert(!(power(17, 400) <= power(10, 21) * power(15, 400))) by (nonlinear_arith)
        requires power(10, 21) == ten_bits(21), power(17, 400) == pow400(17), power(15, 400) == pow400(15);
}

proof fn threshold_17_is_log()
    ensures
        ten_root_at_most(-44, 14, 18),
        !ten_root_at_most(-43, 14, 18),
{
    lemma_pow400(14);
    lemma_pow400(18);
    lemma_ten_bits(44);
    lemma_ten_bits(43);
    assert(power(18, 400) <= power(10, 44) * power(14, 400)) by (nonlinear_arith)
        requires power(10, 44) == ten_bits(44), power(18, 400) == pow400(18), power(14, 400) == pow400(14);
    assert(!(power(18, 400) <= power(10, 43) * power(14, 400))) by (nonlinear_arith)
        requires power(10, 43) == ten_bits(43), power(18, 400) == pow400(18), power(14, 400) == pow400(14);
}

proof fn threshold_18_is_log()
    ensures
        ten_root_at_most(-66, 13, 19),
        !ten_root_at_most(-65, 13, 19),
{
    lemma_pow400(13);
    lemma_pow400(19);
    lemma_ten_bits(66);
    lemma_ten_bits(65);
    assert(power(19, 400) <= power(10, 66) * power(13, 400)) by (nonlinear_arith)
        requires power(10, 66) == ten_bits(66), power(19, 400) == pow400(19), power(13, 400) == pow400(13);
    assert(!(power(19, 400) <= power(10, 65) * power(13, 400))) by (nonlinear_arith)
        requires power(10, 65) == ten_bits(65), power(19, 400) == pow400(19), power(13, 400) == pow400(13);
}

proof fn threshold_19_is_log()
    ensures
        ten_root_at_most(-89, 12, 20),
        !ten_root_at_most(-88, 12, 20),
{
    lemma_pow400(12);
    lemma_pow400(20);
    lemma_ten_bits(89);
    lemma_ten_bits(88);
    assert(power(20, 400) <= power(10, 89) * power(12, 400)) by (nonlinear_arith)
        requires power(10, 89) == ten_bits(89), power(20, 400) == pow400(20), power(12, 400) == pow400(12);
    assert(!(power(20, 400) <= power(10, 88) * power(12, 400))) by (nonlinear_arith)
        requires power(10, 88) == ten_bits(88), power(20, 400) == pow400(20), power(12, 400) == pow400(12);
}

proof fn threshold_20_is_log()
    ensures
        ten_root_at_most(-113, 11, 21),
        !ten_root_at_most(-112, 11, 21),
{
    lemma_pow400(11);
    lemma_pow400(21);
    lemma_ten_bits(113);
    lemma_ten_bits(112);
    assert(power(21, 400) <= power(10, 113) * power(11, 400)) by (nonlinear_arith)
        requires power(10, 113) == ten_bits(113), power(21, 400) == pow400(21), power(11, 400) == pow400(11);
    assert(!(power(21, 400) <= power(10, 112) * power(11, 400))) by (nonlinear_arith)
        requires power(10, 112) == ten_bits(112), power(21, 400) == pow400(21), power(11, 400) == pow400(11);
}

proof fn threshold_21_is_log()
    ensures
        ten_root_at_most(-137, 10, 22),
        !ten_root_at_most(-136, 10, 22),
{
    lemma_pow400(10);
    lemma_pow400(22);
    lemma_ten_bits(137);
    lemma_ten_bits(136);
    assert(power(22, 400) <= power(10, 137) * power(10, 400)) by (nonlinear_arith)
        requires power(10, 137) == ten_bits(137), power(22, 400) == pow400(22), power(10, 400) == pow400(10);
    assert(!(power(22, 400) <= power(10, 136) * power(10, 400))) by (nonlinear_arith)
        requires power(10, 136) == ten_bits(136), power(22, 400) == pow400(22), power(10, 400) == pow400(10);
}

proof fn threshold_22_is_log()
    ensures
        ten_root_at_most(-163, 9, 23),
        !ten_root_at_most(-162, 9, 23),
{
    lemma_pow400(9);
    lemma_pow400(23);
    lemma_ten_bits(163);
    lemma_ten_bits(162);
    assert(power(23, 400) <= power(10, 163) * power(9, 400)) by (nonlinear_arith)
        requires power(10, 163) == ten_bits(163), power(23, 400) == pow400(23), power(9, 400) == pow400(9);
    assert(!(power(23, 400) <= power(10, 162) * power(9, 400))) by (nonlinear_arith)
        requires power(10, 162) == ten_bits(162), power(23, 400) == pow400(23), power(9, 400) == pow400(9);
}

proof fn threshold_23_is_log()
    ensures
        ten_root_at_most(-191, 8, 24),
        !ten_root_at_most(-190, 8, 24),
{
    lemma_pow400(8);
    lemma_pow400(24);
    lemma_ten_bits(191);
    lemma_ten_bits(190);
    assert(power(24, 400) <= power(10, 191) * power(8, 400)) by (nonlinear_arith)
        requires power(10, 191) == ten_bits(191), power(24, 400) == pow400(24), power(8, 400) == pow400(8);
    assert(!(power(24, 400) <= power(10, 190) * power(8, 400))) by (nonlinear_arith)
        requires power(10, 190) == ten_bits(190), power(24, 400) == pow400(24), power(8, 400) == pow400(8);
}

proof fn threshold_24_is_log()
    ensures
        ten_root_at_most(-222, 7, 25),
        !ten_root_at_most(-221, 7, 25),
{
    lemma_pow400(7);
    lemma_pow400(25);
    lemma_ten_bits(222);
    lemma_ten_bits(221);
    assert(power(25, 400) <= power(10, 222) * power(7, 400)) by (nonlinear_arith)
        requires power(10, 222) == ten_bits(222), power(25, 400) == pow400(25), power(7, 400) == pow400(7);
    assert(!(power(25, 400) <= power(10, 221) * power(7, 400))) by (nonlinear_arith)
        requires power(10, 221) == ten_bits(221), power(25, 400) == pow400(25), power(7, 400) == pow400(7);
}

proof fn threshold_25_is_log()
    ensures
        ten_root_at_most(-255, 6, 26),
        !ten_root_at_most(-254, 6, 26),
{
    lemma_pow400(6);
    lemma_pow400(26);
    lemma_ten_bits(255);
    lemma_ten_bits(254);
    assert(power(26, 400) <= power(10, 255) * power(6, 400)) by (nonlinear_arith)
        requires power(10, 255) == ten_bits(255), power(26, 400) == pow400(26), power(6, 400) == pow400(6);
    assert(!(power(26, 400) <= power(10, 254) * power(6, 400))) by (nonlinear_arith)
        requires power(10, 254) == ten_bits(254), power(26, 400) == pow400(26), power(6, 400) == pow400(6);
}

proof fn threshold_26_is_log()
    ensures
        ten_root_at_most(-293, 5, 27),
        !ten_root_at_most(-292, 5, 27),
{
    lemma_pow400(5);
    lemma_pow400(27);
    lemma_ten_bits(293);
    lemma_ten_bits(292);
    assert(power(27, 400) <= power(10, 293) * power(5, 400)) by (nonlinear_arith)
        requires power(10, 293) == ten_bits(293), power(27, 400) == pow400(27), power(5, 400) == pow400(5);
    assert(!(power(27, 400) <= power(10, 292) * power(5, 400))) by (nonlinear_arith)
        requires power(10, 292) == ten_bits(292), power(27, 400) == pow400(27), power(5, 400) == pow400(5);
}

proof fn threshold_27_is_log()
    ensures
        ten_root_at_most(-339, 4, 28),
        !ten_root_at_most(-338, 4, 28),
{
    lemma_pow400(4);
    lemma_pow400(28);
    lemma_ten_bits(339);
    lemma_ten_bits(338);
    assert(power(28, 400) <= power(10, 339) * power(4, 400)) by (nonlinear_arith)
        requires power(10, 339) == ten_bits(339), power(28, 400) == pow400(28), power(4, 400) == pow400(4);
    assert(!(power(28, 400) <= power(10, 338) * power(4, 400))) by (nonlinear_arith)
        requires power(10, 338) == ten_bits(338), power(28, 400) == pow400(28), power(4, 400) == pow400(4);
}

proof fn threshold_28_is_log()
    ensures
        ten_root_at_most(-395, 3, 29),
        !ten_root_at_most(-394, 3, 29),
{
    lemma_pow400(3);
    lemma_pow400(29);
    lemma_ten_bits(395);
    lemma_ten_bits(394);
    assert(power(29, 400) <= power(10, 395) * power(3, 400)) by (nonlinear_arith)
        requires power(10, 395) == ten_bits(395), power(29, 400) == pow400(29), power(3, 400) == pow400(3);
    assert(!(power(29, 400) <= power(10, 394) * power(3, 400))) by (nonlinear_arith)
        requires power(10, 394) == ten_bits(394), power(29, 400) == pow400(29), power(3, 400) == pow400(3);
}

proof fn threshold_29_is_log()
    ensures
        ten_root_at_most(-471, 2, 30),
        !ten_root_at_most(-470, 2, 30),
{
    lemma_pow400(2);
    lemma_pow400(30);
    lemma_ten_bits(471);
    lemma_ten_bits(470);
    assert(power(30, 400) <= power(10, 471) * power(2, 400)) by (nonlinear_arith)
        requires power(10, 471) == ten_bits(471), power(30, 400) == pow400(30), power(2, 400) == pow400(2);
    assert(!(power(30, 400) <= power(10, 470) * power(2, 400))) by (nonlinear_arith)
        requires power(10, 470) == ten_bits(470), power(30, 400) == pow400(30), power(2, 400) == pow400(2);
}

proof fn threshold_30_is_log()
    ensures
        ten_root_at_most(-597, 1, 31),
        !ten_root_at_most(-596, 1, 31),
{
    lemma_pow400(1);
    lemma_pow400(31);
    lemma_ten_bits(597);
    lemma_ten_bits(596);
    assert(power(31, 400) <= power(10, 597) * power(1, 400)) by (nonlinear_arith)
        requires power(10, 597) == ten_bits(597), power(31, 400) == pow400(31), power(1, 400) == pow400(1);
    assert(!(power(31, 400) <= power(10, 596) * power(1, 400))) by (nonlinear_arith)
        requires power(10, 596) == ten_bits(596), power(31, 400) == pow400(31), power(1, 400) == pow400(1);
}

pub proof fn lemma_power_positive(x: int, e: nat)
    requires x > 0,
    ensures power(x, e) > 0,
    decreases e,
{
    if e > 0 {
        lemma_power_positive(x, (e - 1) as nat);
        vstd::arithmetic::mul::lemma_mul_strictly_positive(x, power(x, (e - 1) as nat));
    }
}

pub proof fn lemma_power_zero(e: nat)
    requires e > 0,
    ensures power(0, e) == 0,
{
}

pub proof fn lemma_power_ten_monotone(n1: nat, n2: nat)
    requires n1 <= n2,
    ensures 1 <= power(10, n1) <= power(10, n2),
    decreases n2,
{
    lemma_power_positive(10, n2);
    if n1 < n2 {
        lemma_power_ten_monotone(n1, (n2 - 1) as nat);
    }
}

/// Where `10^(gap / 400)` is at most a ratio, so is it at every smaller gap.
pub proof fn lemma_ten_root_monotone(g1: int, g2: int, a: nat, b: nat)
    requires
        g1 <= g2,
        ten_root_at_most(g2, a, b),
    ensures
        ten_root_at_most(g1, a, b),
{
    let pa = power(a as int, 400);
    let pb = power(b as int, 400);
    if a > 0 { lemma_power_positive(a as int, 400); } else { lemma_power_zero(400); }
    if b > 0 { lemma_power_positive(b as int, 400); } else { lemma_power_zero(400); }
    if g1 >= 0 {
        lemma_power_ten_monotone(g1 as nat, g2 as nat);
        vstd::arithmetic::mul::lemma_mul_inequality(power(10, g1 as nat), power(10, g2 as nat), pb);
    } else if g2 >= 0 {
        lemma_power_ten_monotone(0, g2 as nat);
        lemma_power_ten_monotone(0, (-g1) as nat);
        vstd::arithmetic::mul::lemma_mul_inequality(1, power(10, g2 as nat), pb);
        vstd::arithmetic::mul::lemma_mul_inequality(1, power(10, (-g1) as nat), pa);
    } else {
        lemma_power_ten_monotone((-g2) as nat, (-g1) as nat);
        vstd::arithmetic::mul::lemma_mul_inequality(power(10, (-g2) as nat), power(10, (-g1) as nat), pa);
    }
}

/// The winner's gain is the integer part of `32 / (1 + 10^(gap / 400))` for every gap
/// above `full_gain_gap()` (below it, double precision rounds the loser's expected
/// score to one): with `q = 10^(gap / 400)`, `gain * (1 + q) <= 32 < (gain + 1) * (1 + q)`,
/// that is, `q <= (32 - gain) / gain` where the gain is positive, and
/// `q > (31 - gain) / (gain + 1)`.
#[verifier::rlimit(100)]
pub proof fn lemma_gain_is_floor(gap: int)
    requires
        gap > full_gain_gap(),
    ensures
        0 <= elo_gain(gap) <= 31,
        elo_gain(gap) > 0 ==> ten_root_at_most(gap, (32 - elo_gain(gap)) as nat, elo_gain(gap) as nat),
        !ten_root_at_most(gap, (31 - elo_gain(gap)) as nat, (elo_gain(gap) + 1) as nat),
{
    lemma_thresholds_above_steps(gap);
    if gap > 596 {
        assert(elo_gain(gap) == 0);
        threshold_0_is_log();
        if ten_root_at_most(gap, 31, 1) { lemma_ten_root_monotone(597, gap, 31, 1); }
    } else if gap > 470 {
        assert(elo_gain(gap) == 1);
        threshold_0_is_log();
        lemma_ten_root_monotone(gap, 596, 31, 1);
        threshold_1_is_log();
        if ten_root_at_most(gap, 30, 2) { lemma_ten_root_monotone(471, gap, 30, 2); }
    } else if gap > 394 {
        assert(elo_gain(gap) == 2);
        threshold_1_is_log();
        lemma_ten_root_monotone(gap, 470, 30, 2);
        threshold_2_is_log();
        if ten_root_at_most(gap, 29, 3) { lemma_ten_root_monotone(395, gap, 29, 3); }
    } else if gap > 338 {
        assert(elo_gain(gap) == 3);
        threshold_2_is_log();
        lemma_ten_root_monotone(gap, 394, 29, 3);
        threshold_3_is_log();
        if ten_root_at_most(gap, 28, 4) { lemma_ten_root_monotone(339, gap, 28, 4); }
    } else if gap > 292 {
        assert(elo_gain(gap) == 4);
        threshold_3_is_log();
        lemma_ten_root_monotone(gap, 338, 28, 4);
        threshold_4_is_log();
        if ten_root_at_most(gap, 27, 5) { lemma_ten_root_monotone(293, gap, 27, 5); }
    } else if gap > 254 {
        assert(elo_gain(gap) == 5);
        threshold_4_is_log();
        lemma_ten_root_monotone(gap, 292, 27, 5);
        threshold_5_is_log();
        if ten_root_at_most(gap, 26, 6) { lemma_ten_root_monotone(255, gap, 26, 6); }
    } else if gap > 221 {
        assert(elo_gain(gap) == 6);
        threshold_5_is_log();
        lemma_ten_root_monotone(gap, 254, 26, 6);
        threshold_6_is_log();
        if ten_root_at_most(gap, 25, 7) { lemma_ten_root_monotone(222, gap, 25, 7); }
    } else if gap > 190 {
        assert(elo_gain(gap) == 7);
        threshold_6_is_log();
        lemma_ten_root_monotone(gap, 221, 25, 7);
        threshold_7_is_log();
        if ten_root_at_most(gap, 24, 8) { lemma_ten_root_monotone(191, gap, 24, 8); }
    } else if gap > 162 {
        assert(elo_gain(gap) == 8);
        threshold_7_is_log();
        lemma_ten_root_monotone(gap, 190, 24, 8);
        threshold_8_is_log();
        if ten_root_at_most(gap, 23, 9) { lemma_ten_root_monotone(163, gap, 23, 9); }
    } else if gap > 136 {
        assert(elo_gain(gap) == 9);
        threshold_8_is_log();
        lemma_ten_root_monotone(gap, 162, 23, 9);
        threshold_9_is_log();
        if ten_root_at_most(gap, 22, 10) { lemma_ten_root_monotone(137, gap, 22, 10); }
    } else if gap > 112 {
        assert(elo_gain(gap) == 10);
        threshold_9_is_log();
        lemma_ten_root_monotone(gap, 136, 22, 10);
        threshold_10_is_log();
        if ten_root_at_most(gap, 21, 11) { lemma_ten_root_monotone(113, gap, 21, 11); }
    } else if gap > 88 {
        assert(elo_gain(gap) == 11);
        threshold_10_is_log();
        lemma_ten_root_monotone(gap, 112, 21, 11);
        threshold_11_is_log();
        if ten_root_at_most(gap, 20, 12) { lemma_ten_root_monotone(89, gap, 20, 12); }
    } else if gap > 65 {
        assert(elo_gain(gap) == 12);
        threshold_11_is_log();
        lemma_ten_root_monotone(gap, 88, 20, 12);
        threshold_12_is_log();
        if ten_root_at_most(gap, 19, 13) { lemma_ten_root_monotone(66, gap, 19, 13); }
    } else if gap > 43 {
        assert(elo_gain(gap) == 13);
        threshold_12_is_log();
        lemma_ten_root_monotone(gap, 65, 19, 13);
        threshold_13_is_log();
        if ten_root_at_most(gap, 18, 14) { lemma_ten_root_monotone(44, gap, 18, 14); }
    } else if gap > 21 {
        assert(elo_gain(gap) == 14);
        threshold_13_is_log();
        lemma_ten_root_monotone(gap, 43, 18, 14);
        threshold_14_is_log();
        if ten_root_at_most(gap, 17, 15) { lemma_ten_root_monotone(22, gap, 17, 15); }
    } else if gap > 0 {
        assert(elo_gain(gap) == 15);
        threshold_14_is_log();
        lemma_ten_root_monotone(gap, 21, 17, 15);
        threshold_15_is_log();
        if ten_root_at_most(gap, 16, 16) { lemma_ten_root_monotone(1, gap, 16, 16); }
    } else if gap > -22 {
        assert(elo_gain(gap) == 16);
        threshold_15_is_log();
        lemma_ten_root_monotone(gap, 0, 16, 16);
        threshold_16_is_log();
        if ten_root_at_most(gap, 15, 17) { lemma_ten_root_monotone(-21, gap, 15, 17); }
    } else if gap > -44 {
        assert(elo_gain(gap) == 17);
        threshold_16_is_log();
        lemma_ten_root_monotone(gap, -22, 15, 17);
        threshold_17_is_log();
        if ten_root_at_most(gap, 14, 18) { lemma_ten_root_monotone(-43, gap, 14, 18); }
    } else if gap > -66 {
        assert(elo_gain(gap) == 18);
        threshold_17_is_log();
        lemma_ten_root_monotone(gap, -44, 14, 18);
        threshold_18_is_log();
        if ten_root_at_most(gap, 13, 19) { lemma_ten_root_monotone(-65, gap, 13, 19); }
    } else if gap > -89 {
        assert(elo_gain(gap) == 19);
        threshold_18_is_log();
        lemma_ten_root_monotone(gap, -66, 13, 19);
        threshold_19_is_log();
        if ten_root_at_most(gap, 12, 20) { lemma_ten_root_monotone(-88, gap, 12, 20); }
    } else if gap > -113 {
        assert(elo_gain(gap) == 20);
        threshold_19_is_log();
        lemma_ten_root_monotone(gap, -89, 12, 20);
        threshold_20_is_log();
        if ten_root_at_most(gap, 11, 21) { lemma_ten_root_monotone(-112, gap, 11, 21); }
    } else if gap > -137 {
        assert(elo_gain(gap) == 21);
        threshold_20_is_log();
        lemma_ten_root_monotone(gap, -113, 11, 21);
        threshold_21_is_log();
        if ten_root_at_most(gap, 10, 22) { lemma_ten_root_monotone(-136, gap, 10, 22); }
    } else if gap > -163 {
        assert(elo_gain(gap) == 22);
        threshold_21_is_log();
        lemma_ten_root_monotone(gap, -137, 10, 22);
        threshold_22_is_log();
        if ten_root_at_most(gap, 9, 23) { lemma_ten_root_monotone(-162, gap, 9, 23); }
    } else if gap > -191 {
        assert(elo_gain(gap) == 23);
        threshold_22_is_log();
        lemma_ten_root_monotone(gap, -163, 9, 23);
        threshold_23_is_log();
        if ten_root_at_most(gap, 8, 24) { lemma_ten_root_monotone(-190, gap, 8, 24); }
    } else if gap > -222 {
        assert(elo_gain(gap) == 24);
        threshold_23_is_log();
        lemma_ten_root_monotone(gap, -191, 8, 24);
        threshold_24_is_log();
        if ten_root_at_most(gap, 7, 25) { lemma_ten_root_monotone(-221, gap, 7, 25); }
    } else if gap > -255 {
        assert(elo_gain(gap) == 25);
        threshold_24_is_log();
        lemma_ten_root_monotone(gap, -222, 7, 25);
        threshold_25_is_log();
        if ten_root_at_most(gap, 6, 26) { lemma_ten_root_monotone(-254, gap, 6, 26); }
    } else if gap > -293 {
        assert(elo_gain(gap) == 26);
        threshold_25_is_log();
        lemma_ten_root_monotone(gap, -255, 6, 26);
        threshold_26_is_log();
        if ten_root_at_most(gap, 5, 27) { lemma_ten_root_monotone(-292, gap, 5, 27); }
    } else if gap > -339 {
        assert(elo_gain(gap) == 27);
        threshold_26_is_log();
        lemma_ten_root_monotone(gap, -293, 5, 27);
        threshold_27_is_log();
        if ten_root_at_most(gap, 4, 28) { lemma_ten_root_monotone(-338, gap, 4, 28); }
    } else if gap > -395 {
        assert(elo_gain(gap) == 28);
        threshold_27_is_log();
        lemma_ten_root_monotone(gap, -339, 4, 28);
        threshold_28_is_log();
        if ten_root_at_most(gap, 3, 29) { lemma_ten_root_monotone(-394, gap, 3, 29); }
    } else if gap > -471 {
        assert(elo_gain(gap) == 29);
        threshold_28_is_log();
        lemma_ten_root_monotone(gap, -395, 3, 29);
        threshold_29_is_log();
        if ten_root_at_most(gap, 2, 30) { lemma_ten_root_monotone(-470, gap, 2, 30); }
    } else if gap > -597 {
        assert(elo_gain(gap) == 30);
        threshold_29_is_log();
        lemma_ten_root_monotone(gap, -471, 2, 30);
        threshold_30_is_log();
        if ten_root_at_most(gap, 1, 31) { lemma_ten_root_monotone(-596, gap, 1, 31); }
    } else {
        assert(elo_gain(gap) == 31);
        threshold_30_is_log();
        lemma_ten_root_monotone(gap, -597, 1, 31);
        lemma_power_positive(10, (-gap) as nat);
        lemma_power_positive(32, 400);
        lemma_power_zero(400);
        assert(power(10, (-gap) as nat) * power(0, 400) == 0);
    }
}

} // verus!
