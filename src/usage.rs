use vstd::prelude::*;

verus! {

/// The boost of 1.0: boosts are counted in ten-millionths.
pub const BOOST_SCALE: u64 = 10_000_000;

/// The recency weight of 1.0: recency is counted in millionths.
pub const RECENCY_SCALE: u64 = 1_000_000;

/// Frequency levels: the frequency weight is a level out of 1000.
pub const FREQUENCY_LEVELS: usize = 1000;

/// Usage of one application.
#[derive(Debug, Clone, Copy, PartialEq, Eq, Structural)]
pub struct UsageStats {
    /// Seconds since the Unix epoch of the latest launch.
    pub last_used: u64,
    /// Number of launches (at least 1).
    pub use_count: u32,
}

/// `now - then`, or zero when `then` is later.
pub open spec fn age_of(now: u64, then: u64) -> int {
    if now >= then {
        now - then
    } else {
        0
    }
}

/// Recency weight, in millionths, of a launch `age` seconds ago:
/// full within an hour, falling linearly to 0.8 over a day, to 0.5 over a
/// week, to 0.2 over thirty days, and 0.1 after that (rounded down).
pub open spec fn recency_spec(age: int) -> int {
    if age < 3600 {
        1_000_000
    } else if age < 86400 {
        800_000 + (200_000 * (86400 - age)) / 86400
    } else if age < 604800 {
        500_000 + (300_000 * (604800 - age)) / 604800
    } else if age < 2592000 {
        200_000 + (300_000 * (2592000 - age)) / 2592000
    } else {
        100_000
    }
}

/// `ceil(e^(k/100))` for `k` from 1 to 1000: a count `c` has
/// `ln(c) >= k/100` exactly when it is at least the `k`-th of these.
pub open spec fn frequency_thresholds() -> Seq<u32> {
    seq![
        2u32, 2, 2, 2, 2, 2, 2, 2, 2, 2, 2, 2, 2, 2, 2, 2, 2, 2, 2, 2, 2, 2, 2, 2, 2, 2, 2, 2, 2, 2,
        2, 2, 2, 2, 2, 2, 2, 2, 2, 2, 2, 2, 2, 2, 2, 2, 2, 2, 2, 2, 2, 2, 2, 2, 2, 2, 2, 2, 2, 2, 2,
        2, 2, 2, 2, 2, 2, 2, 2, 3, 3, 3, 3, 3, 3, 3, 3, 3, 3, 3, 3, 3, 3, 3, 3, 3, 3, 3, 3, 3, 3, 3,
        3, 3, 3, 3, 3, 3, 3, 3, 3, 3, 3, 3, 3, 3, 3, 3, 3, 4, 4, 4, 4, 4, 4, 4, 4, 4, 4, 4, 4, 4, 4,
        4, 4, 4, 4, 4, 4, 4, 4, 4, 4, 4, 4, 4, 4, 4, 5, 5, 5, 5, 5, 5, 5, 5, 5, 5, 5, 5, 5, 5, 5, 5,
        5, 5, 5, 5, 5, 5, 6, 6, 6, 6, 6, 6, 6, 6, 6, 6, 6, 6, 6, 6, 6, 6, 6, 6, 6, 7, 7, 7, 7, 7, 7,
        7, 7, 7, 7, 7, 7, 7, 7, 7, 8, 8, 8, 8, 8, 8, 8, 8, 8, 8, 8, 8, 8, 9, 9, 9, 9, 9, 9, 9, 9, 9,
        9, 9, 9, 10, 10, 10, 10, 10, 10, 10, 10, 10, 10, 10, 11, 11, 11, 11, 11, 11, 11, 11, 11, 12,
        12, 12, 12, 12, 12, 12, 12, 12, 13, 13, 13, 13, 13, 13, 13, 13, 14, 14, 14, 14, 14, 14, 14,
        15, 15, 15, 15, 15, 15, 15, 16, 16, 16, 16, 16, 16, 16, 17, 17, 17, 17, 17, 17, 18, 18, 18,
        18, 18, 18, 19, 19, 19, 19, 19, 20, 20, 20, 20, 20, 21, 21, 21, 21, 21, 22, 22, 22, 22, 22,
        23, 23, 23, 23, 24, 24, 24, 24, 25, 25, 25, 25, 26, 26, 26, 26, 27, 27, 27, 27, 28, 28, 28,
        28, 29, 29, 29, 30, 30, 30, 30, 31, 31, 31, 32, 32, 32, 33, 33, 33, 34, 34, 34, 35, 35, 35,
        36, 36, 36, 37, 37, 37, 38, 38, 39, 39, 39, 40, 40, 41, 41, 41, 42, 42, 43, 43, 43, 44, 44,
        45, 45, 46, 46, 47, 47, 47, 48, 48, 49, 49, 50, 50, 51, 51, 52, 52, 53, 53, 54, 55, 55, 56,
        56, 57, 57, 58, 58, 59, 60, 60, 61, 61, 62, 63, 63, 64, 65, 65, 66, 67, 67, 68, 69, 69, 70,
        71, 71, 72, 73, 73, 74, 75, 76, 76, 77, 78, 79, 80, 80, 81, 82, 83, 84, 84, 85, 86, 87, 88,
        89, 90, 91, 91, 92, 93, 94, 95, 96, 97, 98, 99, 100, 101, 102, 103, 104, 105, 106, 107, 108,
        109, 110, 112, 113, 114, 115, 116, 117, 118, 120, 121, 122, 123, 124, 126, 127, 128, 130,
        131, 132, 133, 135, 136, 138, 139, 140, 142, 143, 145, 146, 147, 149, 150, 152, 153, 155,
        157, 158, 160, 161, 163, 165, 166, 168, 170, 171, 173, 175, 176, 178, 180, 182, 184, 185,
        187, 189, 191, 193, 195, 197, 199, 201, 203, 205, 207, 209, 211, 213, 215, 218, 220, 222,
        224, 226, 229, 231, 233, 236, 238, 240, 243, 245, 248, 250, 253, 255, 258, 260, 263, 266,
        268, 271, 274, 276, 279, 282, 285, 288, 291, 293, 296, 299, 302, 305, 308, 312, 315, 318,
        321, 324, 328, 331, 334, 337, 341, 344, 348, 351, 355, 358, 362, 366, 369, 373, 377, 380,
        384, 388, 392, 396, 400, 404, 408, 412, 416, 420, 425, 429, 433, 438, 442, 446, 451, 455,
        460, 465, 469, 474, 479, 483, 488, 493, 498, 503, 508, 513, 519, 524, 529, 534, 540, 545,
        551, 556, 562, 567, 573, 579, 585, 590, 596, 602, 608, 615, 621, 627, 633, 640, 646, 652,
        659, 666, 672, 679, 686, 693, 700, 707, 714, 721, 728, 736, 743, 750, 758, 766, 773, 781,
        789, 797, 805, 813, 821, 829, 838, 846, 855, 863, 872, 881, 889, 898, 907, 916, 926, 935,
        944, 954, 963, 973, 983, 993, 1003, 1013, 1023, 1033, 1044, 1054, 1065, 1075, 1086, 1097,
        1108, 1119, 1131, 1142, 1153, 1165, 1177, 1188, 1200, 1212, 1225, 1237, 1249, 1262, 1275,
        1287, 1300, 1313, 1327, 1340, 1353, 1367, 1381, 1395, 1409, 1423, 1437, 1451, 1466, 1481,
        1496, 1511, 1526, 1541, 1557, 1572, 1588, 1604, 1620, 1636, 1653, 1670, 1686, 1703, 1720,
        1738, 1755, 1773, 1791, 1809, 1827, 1845, 1864, 1882, 1901, 1920, 1940, 1959, 1979, 1999,
        2019, 2039, 2060, 2080, 2101, 2122, 2144, 2165, 2187, 2209, 2231, 2253, 2276, 2299, 2322,
        2345, 2369, 2393, 2417, 2441, 2466, 2490, 2515, 2541, 2566, 2592, 2618, 2644, 2671, 2698,
        2725, 2752, 2780, 2808, 2836, 2865, 2893, 2922, 2952, 2981, 3011, 3042, 3072, 3103, 3134,
        3166, 3198, 3230, 3262, 3295, 3328, 3362, 3395, 3429, 3464, 3499, 3534, 3569, 3605, 3641,
        3678, 3715, 3752, 3790, 3828, 3867, 3905, 3945, 3984, 4024, 4065, 4106, 4147, 4189, 4231,
        4273, 4316, 4360, 4403, 4448, 4492, 4537, 4583, 4629, 4676, 4723, 4770, 4818, 4866, 4915,
        4965, 5015, 5065, 5116, 5167, 5219, 5272, 5325, 5378, 5432, 5487, 5542, 5598, 5654, 5711,
        5768, 5826, 5885, 5944, 6003, 6064, 6125, 6186, 6248, 6311, 6375, 6439, 6503, 6569, 6635,
        6701, 6769, 6837, 6905, 6975, 7045, 7116, 7187, 7260, 7332, 7406, 7481, 7556, 7632, 7708,
        7786, 7864, 7943, 8023, 8104, 8185, 8267, 8350, 8434, 8519, 8605, 8691, 8778, 8867, 8956,
        9046, 9137, 9229, 9321, 9415, 9510, 9605, 9702, 9799, 9898, 9997, 10098, 10199, 10302,
        10405, 10510, 10615, 10722, 10830, 10939, 11048, 11159, 11272, 11385, 11499, 11615, 11732,
        11850, 11969, 12089, 12210, 12333, 12457, 12582, 12709, 12836, 12965, 13096, 13227, 13360,
        13494, 13630, 13767, 13905, 14045, 14186, 14329, 14473, 14618, 14765, 14914, 15064, 15215,
        15368, 15522, 15678, 15836, 15995, 16156, 16318, 16482, 16648, 16815, 16984, 17155, 17327,
        17501, 17677, 17855, 18034, 18215, 18399, 18583, 18770, 18959, 19149, 19342, 19536, 19733,
        19931, 20131, 20333, 20538, 20744, 20953, 21163, 21376, 21591, 21808, 22027,
    ]
}

/// Number of thresholds, from the `k`-th on, that `count` reaches in a row.
pub open spec fn level_from(count: int, k: int) -> int
    decreases FREQUENCY_LEVELS - k,
{
    if k < 0 || k >= FREQUENCY_LEVELS || frequency_thresholds()[k] > count {
        0
    } else {
        1 + level_from(count, k + 1)
    }
}

/// Frequency weight of `count` launches, in thousandths:
/// `min(1, ln(count) / 10)` rounded down to a thousandth.
pub open spec fn frequency_level_spec(count: int) -> int {
    level_from(count, 0)
}

/// Boost, in ten-millionths, of an application last used `age` seconds ago
/// and launched `count` times: 0.7 times recency plus 0.3 times frequency.
pub open spec fn boost_spec(age: int, count: int) -> int {
    7 * recency_spec(age) + 3 * 1_000 * frequency_level_spec(count)
}

/// Boost of the usage record `stats` at the time `now`.
pub open spec fn stats_boost(stats: UsageStats, now: u64) -> int {
    boost_spec(age_of(now, stats.last_used), stats.use_count as int)
}

/// Boost of `name` in the usage map `usage` at the time `now`: 0 without a record.
pub open spec fn usage_boost(usage: Map<Seq<char>, UsageStats>, name: Seq<char>, now: u64) -> int {
    if usage.contains_key(name) {
        stats_boost(usage[name], now)
    } else {
        0
    }
}

proof fn lemma_level_from_bounds(count: int, k: int)
    requires
        0 <= k <= FREQUENCY_LEVELS,
    ensures
        0 <= level_from(count, k) <= FREQUENCY_LEVELS - k,
    decreases FREQUENCY_LEVELS - k,
{
    if k < FREQUENCY_LEVELS && frequency_thresholds()[k] <= count {
        lemma_level_from_bounds(count, k + 1);
    }
}

proof fn lemma_level_from_monotone(c1: int, c2: int, k: int)
    requires
        c1 <= c2,
        0 <= k <= FREQUENCY_LEVELS,
    ensures
        level_from(c1, k) <= level_from(c2, k),
    decreases FREQUENCY_LEVELS - k,
{
    if k < FREQUENCY_LEVELS {
        lemma_level_from_monotone(c1, c2, k + 1);
        lemma_level_from_bounds(c2, k + 1);
    }
}

proof fn lemma_recency_bounds(age: int)
    requires
        age >= 0,
    ensures
        100_000 <= recency_spec(age) <= 1_000_000,
{
    if 3600 <= age < 86400 {
        assert(0 <= (200_000 * (86400 - age)) / 86400 <= 200_000) by (nonlinear_arith)
            requires
                3600 <= age < 86400,
        ;
    } else if 86400 <= age < 604800 {
        assert(0 <= (300_000 * (604800 - age)) / 604800 <= 300_000) by (nonlinear_arith)
            requires
                86400 <= age < 604800,
        ;
    } else if 604800 <= age < 2592000 {
        assert(0 <= (300_000 * (2592000 - age)) / 2592000 <= 300_000) by (nonlinear_arith)
            requires
                604800 <= age < 2592000,
        ;
    }
}

/// Within one branch a falling line, rounded down, does not rise.
proof fn lemma_scaled_fall(w: int, span: int, a1: int, a2: int)
    requires
        0 < span,
        0 <= w,
        a1 <= a2 <= span,
    ensures
        (w * (span - a2)) / span <= (w * (span - a1)) / span,
{
    assert(w * (span - a2) <= w * (span - a1)) by (nonlinear_arith)
        requires
            0 <= w,
            a1 <= a2,
    ;
    vstd::arithmetic::div_mod::lemma_div_is_ordered(w * (span - a2), w * (span - a1), span);
}

proof fn lemma_recency_monotone(a1: int, a2: int)
    requires
        0 <= a1 <= a2,
    ensures
        recency_spec(a2) <= recency_spec(a1),
{
    lemma_recency_bounds(a1);
    lemma_recency_bounds(a2);
    if 3600 <= a1 < 86400 && a2 < 86400 {
        lemma_scaled_fall(200_000, 86400, a1, a2);
    } else if 86400 <= a1 < 604800 && a2 < 604800 {
        lemma_scaled_fall(300_000, 604800, a1, a2);
    } else if 604800 <= a1 < 2592000 && a2 < 2592000 {
        lemma_scaled_fall(300_000, 2592000, a1, a2);
    } else if 3600 <= a1 < 86400 {
        // a2 lies in a later branch, whose values stay below 0.8
        if a2 < 604800 {
            assert((300_000 * (604800 - a2)) / 604800 <= 257_142) by (nonlinear_arith)
                requires
                    86400 <= a2 < 604800,
            ;
        } else if a2 < 2592000 {
            assert((300_000 * (2592000 - a2)) / 2592000 <= 230_000) by (nonlinear_arith)
                requires
                    604800 <= a2 < 2592000,
            ;
        }
    } else if 86400 <= a1 < 604800 {
        if a2 < 2592000 {
            assert((300_000 * (2592000 - a2)) / 2592000 <= 230_000) by (nonlinear_arith)
                requires
                    604800 <= a2 < 2592000,
            ;
        }
    }
}

/// The boost never falls as the launch count grows nor rises as the last
/// launch recedes, and it lies between 0 and the boost of 1.0.
pub proof fn lemma_boost_monotone(age1: int, age2: int, count1: int, count2: int)
    requires
        0 <= age1 <= age2,
        count1 <= count2,
    ensures
        boost_spec(age2, count1) <= boost_spec(age1, count1),
        boost_spec(age1, count1) <= boost_spec(age1, count2),
        0 <= boost_spec(age1, count1) <= BOOST_SCALE,
{
    lemma_recency_monotone(age1, age2);
    lemma_recency_bounds(age1);
    lemma_level_from_monotone(count1, count2, 0);
    lemma_level_from_bounds(count1, 0);
    assert(frequency_level_spec(count1) <= frequency_level_spec(count2));
    assert(0 <= frequency_level_spec(count1) <= 1000);
    let r1 = recency_spec(age1);
    let f1 = frequency_level_spec(count1);
    let f2 = frequency_level_spec(count2);
    assert(boost_spec(age1, count1) == 7 * r1 + 3_000 * f1);
    assert(boost_spec(age1, count2) == 7 * r1 + 3_000 * f2);
}

/// Seconds since the Unix epoch.
///
/// Relies on `std::time::SystemTime::now` and `duration_since(UNIX_EPOCH)`:
/// the clock is read; nothing is promised of the value.
#[verifier::external_body]
pub fn current_timestamp() -> (r: u64) {
    std::time::SystemTime::now().duration_since(std::time::UNIX_EPOCH).unwrap_or_default().as_secs()
}

/// Recency weight, in millionths, of a launch `age` seconds ago.
pub fn recency_score(age: u64) -> (r: u64)
    ensures
        r == recency_spec(age as int),
        r <= RECENCY_SCALE,
{
    proof {
        lemma_recency_bounds(age as int);
    }
    if age < 3600 {
        1_000_000
    } else if age < 86400 {
        800_000 + (200_000 * (86400 - age)) / 86400
    } else if age < 604800 {
        500_000 + (300_000 * (604800 - age)) / 604800
    } else if age < 2592000 {
        200_000 + (300_000 * (2592000 - age)) / 2592000
    } else {
        100_000
    }
}

/// Frequency weight, in thousandths, of `count` launches.
pub fn frequency_level(count: u32) -> (r: u64)
    ensures
        r == frequency_level_spec(count as int),
        r <= FREQUENCY_LEVELS,
{
    let thresholds: [u32; 1000] = [
        2, 2, 2, 2, 2, 2, 2, 2, 2, 2, 2, 2, 2, 2, 2, 2, 2, 2, 2, 2, 2, 2, 2, 2, 2, 2, 2, 2, 2, 2, 2,
        2, 2, 2, 2, 2, 2, 2, 2, 2, 2, 2, 2, 2, 2, 2, 2, 2, 2, 2, 2, 2, 2, 2, 2, 2, 2, 2, 2, 2, 2, 2,
        2, 2, 2, 2, 2, 2, 2, 3, 3, 3, 3, 3, 3, 3, 3, 3, 3, 3, 3, 3, 3, 3, 3, 3, 3, 3, 3, 3, 3, 3, 3,
        3, 3, 3, 3, 3, 3, 3, 3, 3, 3, 3, 3, 3, 3, 3, 3, 4, 4, 4, 4, 4, 4, 4, 4, 4, 4, 4, 4, 4, 4, 4,
        4, 4, 4, 4, 4, 4, 4, 4, 4, 4, 4, 4, 4, 4, 5, 5, 5, 5, 5, 5, 5, 5, 5, 5, 5, 5, 5, 5, 5, 5, 5,
        5, 5, 5, 5, 5, 6, 6, 6, 6, 6, 6, 6, 6, 6, 6, 6, 6, 6, 6, 6, 6, 6, 6, 6, 7, 7, 7, 7, 7, 7, 7,
        7, 7, 7, 7, 7, 7, 7, 7, 8, 8, 8, 8, 8, 8, 8, 8, 8, 8, 8, 8, 8, 9, 9, 9, 9, 9, 9, 9, 9, 9, 9,
        9, 9, 10, 10, 10, 10, 10, 10, 10, 10, 10, 10, 10, 11, 11, 11, 11, 11, 11, 11, 11, 11, 12,
        12, 12, 12, 12, 12, 12, 12, 12, 13, 13, 13, 13, 13, 13, 13, 13, 14, 14, 14, 14, 14, 14, 14,
        15, 15, 15, 15, 15, 15, 15, 16, 16, 16, 16, 16, 16, 16, 17, 17, 17, 17, 17, 17, 18, 18, 18,
        18, 18, 18, 19, 19, 19, 19, 19, 20, 20, 20, 20, 20, 21, 21, 21, 21, 21, 22, 22, 22, 22, 22,
        23, 23, 23, 23, 24, 24, 24, 24, 25, 25, 25, 25, 26, 26, 26, 26, 27, 27, 27, 27, 28, 28, 28,
        28, 29, 29, 29, 30, 30, 30, 30, 31, 31, 31, 32, 32, 32, 33, 33, 33, 34, 34, 34, 35, 35, 35,
        36, 36, 36, 37, 37, 37, 38, 38, 39, 39, 39, 40, 40, 41, 41, 41, 42, 42, 43, 43, 43, 44, 44,
        45, 45, 46, 46, 47, 47, 47, 48, 48, 49, 49, 50, 50, 51, 51, 52, 52, 53, 53, 54, 55, 55, 56,
        56, 57, 57, 58, 58, 59, 60, 60, 61, 61, 62, 63, 63, 64, 65, 65, 66, 67, 67, 68, 69, 69, 70,
        71, 71, 72, 73, 73, 74, 75, 76, 76, 77, 78, 79, 80, 80, 81, 82, 83, 84, 84, 85, 86, 87, 88,
        89, 90, 91, 91, 92, 93, 94, 95, 96, 97, 98, 99, 100, 101, 102, 103, 104, 105, 106, 107, 108,
        109, 110, 112, 113, 114, 115, 116, 117, 118, 120, 121, 122, 123, 124, 126, 127, 128, 130,
        131, 132, 133, 135, 136, 138, 139, 140, 142, 143, 145, 146, 147, 149, 150, 152, 153, 155,
        157, 158, 160, 161, 163, 165, 166, 168, 170, 171, 173, 175, 176, 178, 180, 182, 184, 185,
        187, 189, 191, 193, 195, 197, 199, 201, 203, 205, 207, 209, 211, 213, 215, 218, 220, 222,
        224, 226, 229, 231, 233, 236, 238, 240, 243, 245, 248, 250, 253, 255, 258, 260, 263, 266,
        268, 271, 274, 276, 279, 282, 285, 288, 291, 293, 296, 299, 302, 305, 308, 312, 315, 318,
        321, 324, 328, 331, 334, 337, 341, 344, 348, 351, 355, 358, 362, 366, 369, 373, 377, 380,
        384, 388, 392, 396, 400, 404, 408, 412, 416, 420, 425, 429, 433, 438, 442, 446, 451, 455,
        460, 465, 469, 474, 479, 483, 488, 493, 498, 503, 508, 513, 519, 524, 529, 534, 540, 545,
        551, 556, 562, 567, 573, 579, 585, 590, 596, 602, 608, 615, 621, 627, 633, 640, 646, 652,
        659, 666, 672, 679, 686, 693, 700, 707, 714, 721, 728, 736, 743, 750, 758, 766, 773, 781,
        789, 797, 805, 813, 821, 829, 838, 846, 855, 863, 872, 881, 889, 898, 907, 916, 926, 935,
        944, 954, 963, 973, 983, 993, 1003, 1013, 1023, 1033, 1044, 1054, 1065, 1075, 1086, 1097,
        1108, 1119, 1131, 1142, 1153, 1165, 1177, 1188, 1200, 1212, 1225, 1237, 1249, 1262, 1275,
        1287, 1300, 1313, 1327, 1340, 1353, 1367, 1381, 1395, 1409, 1423, 1437, 1451, 1466, 1481,
        1496, 1511, 1526, 1541, 1557, 1572, 1588, 1604, 1620, 1636, 1653, 1670, 1686, 1703, 1720,
        1738, 1755, 1773, 1791, 1809, 1827, 1845, 1864, 1882, 1901, 1920, 1940, 1959, 1979, 1999,
        2019, 2039, 2060, 2080, 2101, 2122, 2144, 2165, 2187, 2209, 2231, 2253, 2276, 2299, 2322,
        2345, 2369, 2393, 2417, 2441, 2466, 2490, 2515, 2541, 2566, 2592, 2618, 2644, 2671, 2698,
        2725, 2752, 2780, 2808, 2836, 2865, 2893, 2922, 2952, 2981, 3011, 3042, 3072, 3103, 3134,
        3166, 3198, 3230, 3262, 3295, 3328, 3362, 3395, 3429, 3464, 3499, 3534, 3569, 3605, 3641,
        3678, 3715, 3752, 3790, 3828, 3867, 3905, 3945, 3984, 4024, 4065, 4106, 4147, 4189, 4231,
        4273, 4316, 4360, 4403, 4448, 4492, 4537, 4583, 4629, 4676, 4723, 4770, 4818, 4866, 4915,
        4965, 5015, 5065, 5116, 5167, 5219, 5272, 5325, 5378, 5432, 5487, 5542, 5598, 5654, 5711,
        5768, 5826, 5885, 5944, 6003, 6064, 6125, 6186, 6248, 6311, 6375, 6439, 6503, 6569, 6635,
        6701, 6769, 6837, 6905, 6975, 7045, 7116, 7187, 7260, 7332, 7406, 7481, 7556, 7632, 7708,
        7786, 7864, 7943, 8023, 8104, 8185, 8267, 8350, 8434, 8519, 8605, 8691, 8778, 8867, 8956,
        9046, 9137, 9229, 9321, 9415, 9510, 9605, 9702, 9799, 9898, 9997, 10098, 10199, 10302,
        10405, 10510, 10615, 10722, 10830, 10939, 11048, 11159, 11272, 11385, 11499, 11615, 11732,
        11850, 11969, 12089, 12210, 12333, 12457, 12582, 12709, 12836, 12965, 13096, 13227, 13360,
        13494, 13630, 13767, 13905, 14045, 14186, 14329, 14473, 14618, 14765, 14914, 15064, 15215,
        15368, 15522, 15678, 15836, 15995, 16156, 16318, 16482, 16648, 16815, 16984, 17155, 17327,
        17501, 17677, 17855, 18034, 18215, 18399, 18583, 18770, 18959, 19149, 19342, 19536, 19733,
        19931, 20131, 20333, 20538, 20744, 20953, 21163, 21376, 21591, 21808, 22027,
    ];
    assert(thresholds@ == frequency_thresholds());
    let mut k: usize = 0;
    while k < FREQUENCY_LEVELS && thresholds[k] <= count
        invariant
            k <= FREQUENCY_LEVELS,
            thresholds@ == frequency_thresholds(),
            level_from(count as int, 0) == k + level_from(count as int, k as int),
        decreases FREQUENCY_LEVELS - k,
    {
        k = k + 1;
    }
    k as u64
}

/// Boost, in ten-millionths, of the usage record `stats` at the time `now`.
pub fn stats_boost_at(stats: UsageStats, now: u64) -> (r: u64)
    ensures
        r == stats_boost(stats, now),
        r <= BOOST_SCALE,
{
    let age = now.saturating_sub(stats.last_used);
    let rec = recency_score(age);
    let level = frequency_level(stats.use_count);
    7 * rec + 3_000 * level
}

impl UsageStats {
    /// The record of a first launch at the time `now`.
    pub open spec fn new_spec(now: u64) -> Self {
        UsageStats { last_used: now, use_count: 1 }
    }

    /// The record of a first launch at the time `now`.
    pub fn new(now: u64) -> (r: Self)
        ensures
            r == Self::new_spec(now),
    {
        UsageStats { last_used: now, use_count: 1 }
    }

    /// Records one more launch at the time `now`; the count stops at its
    /// largest value.
    pub fn update(&mut self, now: u64)
        ensures
            final(self).last_used == now,
            final(self).use_count == if old(self).use_count == u32::MAX {
                u32::MAX as int
            } else {
                old(self).use_count + 1
            },
    {
        self.last_used = now;
        self.use_count = self.use_count.saturating_add(1);
    }
}

/// The usage map after a launch of `name` at the time `now`.
pub open spec fn after_launch(usage: Map<Seq<char>, UsageStats>, name: Seq<char>, now: u64) -> Map<
    Seq<char>,
    UsageStats,
> {
    usage.insert(
        name,
        if usage.contains_key(name) {
            UsageStats {
                last_used: now,
                use_count: if usage[name].use_count == u32::MAX {
                    u32::MAX
                } else {
                    (usage[name].use_count + 1) as u32
                },
            }
        } else {
            UsageStats::new_spec(now)
        },
    )
}

/// A boost lies between 0 and the boost of 1.0.
pub proof fn lemma_usage_boost_bounds(usage: Map<Seq<char>, UsageStats>, name: Seq<char>, now: u64)
    ensures
        0 <= usage_boost(usage, name, now) <= BOOST_SCALE,
{
    if usage.contains_key(name) {
        let st = usage[name];
        lemma_boost_monotone(
            age_of(now, st.last_used),
            age_of(now, st.last_used),
            st.use_count as int,
            st.use_count as int,
        );
    }
}

/// Two launches of one name on an empty tracker leave a count of 2 and the
/// time of the second launch.
pub proof fn lemma_two_launches(name: Seq<char>, first: u64, second: u64)
    ensures
        after_launch(after_launch(Map::empty(), name, first), name, second)[name]
            == (UsageStats { last_used: second, use_count: 2 }),
{
}

/// The plain form of one usage record: name, last use, count.
pub type UsageParts = (String, u64, u32);

/// The usage map of the plain records `parts`; a later record for a name
/// replaces an earlier one.
pub open spec fn usage_from_parts(parts: Seq<UsageParts>) -> Map<Seq<char>, UsageStats>
    decreases parts.len(),
{
    if parts.len() == 0 {
        Map::empty()
    } else {
        let p = parts.last();
        usage_from_parts(parts.drop_last()).insert(p.0@, UsageStats { last_used: p.1, use_count: p.2 })
    }
}

/// Usage of every launched application, keyed by display name.
#[derive(Debug, Default)]
pub struct UsageTracker {
    /// Application names, each once.
    names: Vec<String>,
    /// `stats[i]` belongs to `names[i]`.
    stats: Vec<UsageStats>,
}

impl View for UsageTracker {
    type V = Map<Seq<char>, UsageStats>;

    closed spec fn view(&self) -> Map<Seq<char>, UsageStats> {
        Map::new(
            |k: Seq<char>| exists|i: int| 0 <= i < self.names@.len() && self.names@[i]@ == k,
            |k: Seq<char>|
                self.stats@[choose|i: int| 0 <= i < self.names@.len() && self.names@[i]@ == k],
        )
    }
}

impl UsageTracker {
    /// One record per name, and one name per record.
    pub closed spec fn wf(&self) -> bool {
        &&& self.names@.len() == self.stats@.len()
        &&& forall|i: int, j: int|
            0 <= i < self.names@.len() && 0 <= j < self.names@.len() && self.names@[i]@
                == self.names@[j]@ ==> i == j
    }

    proof fn lemma_view_at(&self, i: int)
        requires
            self.wf(),
            0 <= i < self.names@.len(),
        ensures
            self@.contains_key(self.names@[i]@),
            self@[self.names@[i]@] == self.stats@[i],
    {
        let k = self.names@[i]@;
        assert(self@.dom().contains(k));
        let c = choose|c: int| 0 <= c < self.names@.len() && self.names@[c]@ == k;
        assert(c == i);
    }

    /// An empty tracker.
    pub fn new() -> (r: Self)
        ensures
            r.wf(),
            r@ == Map::<Seq<char>, UsageStats>::empty(),
    {
        let r = UsageTracker { names: Vec::new(), stats: Vec::new() };
        assert(r@ =~= Map::<Seq<char>, UsageStats>::empty());
        r
    }

    /// Position of the record of `name`, if any.
    fn find(&self, name: &String) -> (r: Option<usize>)
        requires
            self.wf(),
        ensures
            match r {
                Some(i) => i < self.names@.len() && self.names@[i as int]@ == name@,
                None => !self@.contains_key(name@),
            },
    {
        let mut i: usize = 0;
        while i < self.names.len()
            invariant
                self.wf(),
                i <= self.names@.len(),
                forall|j: int| 0 <= j < i ==> self.names@[j]@ != name@,
            decreases self.names@.len() - i,
        {
            if self.names[i] == *name {
                return Some(i);
            }
            i = i + 1;
        }
        None
    }

    /// Sets the record of `app_name` to `stats`, adding it if absent.
    pub fn set_stats(&mut self, app_name: &str, stats: UsageStats)
        requires
            old(self).wf(),
        ensures
            final(self).wf(),
            final(self)@ == old(self)@.insert(app_name@, stats),
    {
        let key = app_name.to_owned();
        let ghost before = *self;
        let ghost k = app_name@;
        match self.find(&key) {
            Some(i) => {
                self.stats.set(i, stats);
                proof {
                    assert forall|x: Seq<char>| #[trigger]
                        self@.contains_key(x) == before@.insert(k, stats).contains_key(x) by {}
                    assert forall|x: Seq<char>| self@.contains_key(x) implies #[trigger] self@[x]
                        == before@.insert(k, stats)[x] by {
                        let c = choose|c: int| 0 <= c < self.names@.len() && self.names@[c]@ == x;
                        self.lemma_view_at(c);
                        if x != k {
                            before.lemma_view_at(c);
                        }
                    }
                    assert(self@ =~= before@.insert(k, stats));
                }
            },
            None => {
                self.names.push(key);
                self.stats.push(stats);
                proof {
                    let n = before.names@.len() as int;
                    assert(self.names@[n]@ == k);
                    assert forall|x: Seq<char>| #[trigger]
                        self@.contains_key(x) == before@.insert(k, stats).contains_key(x) by {
                        if x != k && self@.contains_key(x) {
                            let c = choose|c: int| 0 <= c < self.names@.len() && self.names@[c]@ == x;
                            assert(before.names@[c]@ == x);
                        }
                        if before@.contains_key(x) {
                            let c = choose|c: int|
                                0 <= c < before.names@.len() && before.names@[c]@ == x;
                            assert(self.names@[c]@ == x);
                        }
                    }
                    assert forall|x: Seq<char>| self@.contains_key(x) implies #[trigger] self@[x]
                        == before@.insert(k, stats)[x] by {
                        let c = choose|c: int| 0 <= c < self.names@.len() && self.names@[c]@ == x;
                        self.lemma_view_at(c);
                        if x != k {
                            before.lemma_view_at(c);
                        }
                    }
                    assert(self@ =~= before@.insert(k, stats));
                }
            },
        }
    }

    /// Records a launch of `app_name` at the time `now`: a first launch makes
    /// a record with a count of 1, a later one raises the count by one (up to
    /// its largest value); either way the time of last use becomes `now`.
    /// Other records stay as they were.
    pub fn record_launch_at(&mut self, app_name: &str, now: u64)
        requires
            old(self).wf(),
        ensures
            final(self).wf(),
            final(self)@ == after_launch(old(self)@, app_name@, now),
    {
        let st = match self.get_stats(app_name) {
            Some(s) => {
                let mut st = *s;
                st.update(now);
                st
            },
            None => UsageStats::new(now),
        };
        self.set_stats(app_name, st);
    }

    /// Records a launch of `app_name` now (see `record_launch_at`).
    pub fn record_launch(&mut self, app_name: &str)
        requires
            old(self).wf(),
        ensures
            final(self).wf(),
            exists|now: u64| final(self)@ == after_launch(old(self)@, app_name@, now),
    {
        let now = current_timestamp();
        self.record_launch_at(app_name, now);
    }

    /// The record of `app_name`, if it was ever launched.
    pub fn get_stats(&self, app_name: &str) -> (r: Option<&UsageStats>)
        requires
            self.wf(),
        ensures
            match r {
                Some(s) => self@.contains_key(app_name@) && *s == self@[app_name@],
                None => !self@.contains_key(app_name@),
            },
    {
        let key = app_name.to_owned();
        match self.find(&key) {
            Some(i) => {
                proof {
                    self.lemma_view_at(i as int);
                }
                Some(&self.stats[i])
            },
            None => None,
        }
    }

    /// Boost of `app_name` at the time `now`, in ten-millionths: 0 without a
    /// record.
    pub fn calculate_boost_at(&self, app_name: &str, now: u64) -> (r: u64)
        requires
            self.wf(),
        ensures
            r == usage_boost(self@, app_name@, now),
            r <= BOOST_SCALE,
    {
        match self.get_stats(app_name) {
            Some(s) => stats_boost_at(*s, now),
            None => 0,
        }
    }

    /// Boost of `app_name` now, in ten-millionths: 0 without a record.
    pub fn calculate_boost(&self, app_name: &str) -> (r: u64)
        requires
            self.wf(),
        ensures
            exists|now: u64| r == usage_boost(self@, app_name@, now),
            !self@.contains_key(app_name@) ==> r == 0,
            r <= BOOST_SCALE,
    {
        let now = current_timestamp();
        self.calculate_boost_at(app_name, now)
    }

    /// The plain form of the records, for storage; reading it back gives
    /// the same records.
    pub fn to_parts(&self) -> (r: Vec<UsageParts>)
        requires
            self.wf(),
        ensures
            usage_from_parts(r@) == self@,
    {
        let mut out: Vec<UsageParts> = Vec::new();
        let mut i: usize = 0;
        while i < self.names.len()
            invariant
                self.wf(),
                i <= self.names@.len(),
                out@.len() == i,
                forall|k: Seq<char>|
                    #[trigger] usage_from_parts(out@).contains_key(k) == (exists|j: int|
                        0 <= j < i && self.names@[j]@ == k),
                forall|k: Seq<char>|
                    #[trigger] usage_from_parts(out@).contains_key(k) ==> usage_from_parts(out@)[k]
                        == self@[k],
            decreases self.names@.len() - i,
        {
            let ghost before = out@;
            let st = self.stats[i];
            out.push((self.names[i].clone(), st.last_used, st.use_count));
            proof {
                self.lemma_view_at(i as int);
                assert(out@.drop_last() =~= before);
                let m = usage_from_parts(out@);
                assert forall|k: Seq<char>| #[trigger] m.contains_key(k) == (exists|j: int| 0 <= j < i + 1 && self.names@[j]@ == k) by {
                    if k == self.names@[i as int]@ {
                    } else if usage_from_parts(before).contains_key(k) {
                    }
                }
                assert(out@.last().0@ == self.names@[i as int]@);
                assert(m == usage_from_parts(before).insert(
                    self.names@[i as int]@,
                    UsageStats { last_used: st.last_used, use_count: st.use_count },
                ));
                assert(st == self.stats@[i as int]);
                assert forall|k: Seq<char>| #[trigger] m.contains_key(k) implies m[k] == self@[k] by {
                    if k != self.names@[i as int]@ {
                        assert(usage_from_parts(before).contains_key(k));
                    }
                }
            }
            i = i + 1;
        }
        proof {
            let m = usage_from_parts(out@);
            assert forall|k: Seq<char>| #[trigger] m.contains_key(k) == self@.contains_key(k) by {
                if self@.contains_key(k) {
                    let c = choose|c: int| 0 <= c < self.names@.len() && self.names@[c]@ == k;
                    assert(self.names@[c]@ == k);
                }
            }
            assert(m =~= self@);
        }
        out
    }

    /// The tracker of the plain records `parts`; a later record for a name
    /// replaces an earlier one.
    pub fn from_parts(parts: Vec<UsageParts>) -> (r: Self)
        ensures
            r.wf(),
            r@ == usage_from_parts(parts@),
    {
        let mut t = UsageTracker::new();
        let mut i: usize = 0;
        while i < parts.len()
            invariant
                i <= parts@.len(),
                t.wf(),
                t@ == usage_from_parts(parts@.subrange(0, i as int)),
            decreases parts@.len() - i,
        {
            let (name, last_used, use_count) = &parts[i];
            t.set_stats(name.as_str(), UsageStats { last_used: *last_used, use_count: *use_count });
            assert(parts@.subrange(0, i as int + 1).drop_last() =~= parts@.subrange(0, i as int));
            i = i + 1;
        }
        assert(parts@.subrange(0, i as int) =~= parts@);
        t
    }
}

} // verus!
