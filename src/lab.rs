//! Lab to sRGB conversion in fixed-point arithmetic.
//!
//! L is stored as 0..255 for 0..100, a and b with an offset of 128. The sample
//! goes to CIE XYZ through the inverse of the Lab cube-root function with the
//! D65 white point, to linear RGB through the sRGB matrix, and to 8-bit levels
//! through the sRGB transfer curve. Intermediate values are rationals: the Lab
//! function arguments carry the denominator 29 580 000, XYZ and linear RGB the
//! scale 10^9; the transfer curve is inverted through a table of thresholds.

use vstd::prelude::*;

verus! {

/// Integer division rounding toward zero.
pub open spec fn div_toward_zero(n: int, d: int) -> int {
    if n >= 0 { n / d } else { -((-n) / d) }
}

/// The common denominator of the Lab function arguments: 255 * 116 * 1000.
pub open spec fn lab_den() -> int {
    29580000
}

/// The inverse of the Lab function at `n / 29580000`, scaled by 10^9: the
/// cube where it exceeds 0.008856 (= 1107 / 125000), the linear segment
/// `(t - 16/116) / 7.787` below.
pub open spec fn lab_pivot(n: int) -> int {
    let d = lab_den();
    if 125000 * (n * n * n) > 1107 * (d * d * d) {
        n * n * n * 1000000000 / (d * d * d)
    } else {
        div_toward_zero((116 * n - 16 * d) * 1000 * 1000000000, 116 * 7787 * d)
    }
}

/// The smallest linear-light value, scaled by 10^9, that the sRGB transfer
/// curve maps to level `c` or above (for `1 <= c <= 255`).
pub open spec fn srgb_threshold(c: u16) -> int {
    match c {
        1 => 303527,
        2 => 607054,
        3 => 910581,
        4 => 1214108,
        5 => 1517635,
        6 => 1821162,
        7 => 2124689,
        8 => 2428216,
        9 => 2731743,
        10 => 3035270,
        11 => 3346536,
        12 => 3676508,
        13 => 4024718,
        14 => 4391443,
        15 => 4776954,
        16 => 5181517,
        17 => 5605392,
        18 => 6048834,
        19 => 6512091,
        20 => 6995411,
        21 => 7499033,
        22 => 8023193,
        23 => 8568126,
        24 => 9134059,
        25 => 9721218,
        26 => 10329824,
        27 => 10960095,
        28 => 11612246,
        29 => 12286489,
        30 => 12983033,
        31 => 13702084,
        32 => 14443844,
        33 => 15208515,
        34 => 15996294,
        35 => 16807376,
        36 => 17641955,
        37 => 18500221,
        38 => 19382361,
        39 => 20288564,
        40 => 21219011,
        41 => 22173885,
        42 => 23153367,
        43 => 24157633,
        44 => 25186860,
        45 => 26241222,
        46 => 27320892,
        47 => 28426040,
        48 => 29556835,
        49 => 30713444,
        50 => 31896034,
        51 => 33104767,
        52 => 34339807,
        53 => 35601315,
        54 => 36889451,
        55 => 38204372,
        56 => 39546236,
        57 => 40915197,
        58 => 42311411,
        59 => 43735030,
        60 => 45186205,
        61 => 46665087,
        62 => 48171825,
        63 => 49706566,
        64 => 51269459,
        65 => 52860648,
        66 => 54480277,
        67 => 56128491,
        68 => 57805431,
        69 => 59511239,
        70 => 61246055,
        71 => 63010018,
        72 => 64803267,
        73 => 66625939,
        74 => 68478170,
        75 => 70360096,
        76 => 72271851,
        77 => 74213569,
        78 => 76185382,
        79 => 78187422,
        80 => 80219821,
        81 => 82282708,
        82 => 84376212,
        83 => 86500463,
        84 => 88655587,
        85 => 90841712,
        86 => 93058963,
        87 => 95307467,
        88 => 97587348,
        89 => 99898729,
        90 => 102241734,
        91 => 104616485,
        92 => 107023103,
        93 => 109461711,
        94 => 111932428,
        95 => 114435374,
        96 => 116970668,
        97 => 119538428,
        98 => 122138773,
        99 => 124771818,
        100 => 127437681,
        101 => 130136477,
        102 => 132868322,
        103 => 135633330,
        104 => 138431616,
        105 => 141263292,
        106 => 144128471,
        107 => 147027267,
        108 => 149959790,
        109 => 152926152,
        110 => 155926464,
        111 => 158960836,
        112 => 162029376,
        113 => 165132195,
        114 => 168269401,
        115 => 171441101,
        116 => 174647404,
        117 => 177888416,
        118 => 181164245,
        119 => 184474995,
        120 => 187820773,
        121 => 191201683,
        122 => 194617831,
        123 => 198069320,
        124 => 201556254,
        125 => 205078737,
        126 => 208636871,
        127 => 212230758,
        128 => 215860501,
        129 => 219526200,
        130 => 223227958,
        131 => 226965874,
        132 => 230740049,
        133 => 234550583,
        134 => 238397574,
        135 => 242281123,
        136 => 246201327,
        137 => 250158285,
        138 => 254152095,
        139 => 258182853,
        140 => 262250658,
        141 => 266355605,
        142 => 270497792,
        143 => 274677313,
        144 => 278894264,
        145 => 283148741,
        146 => 287440838,
        147 => 291770650,
        148 => 296138271,
        149 => 300543795,
        150 => 304987315,
        151 => 309468923,
        152 => 313988714,
        153 => 318546779,
        154 => 323143210,
        155 => 327778099,
        156 => 332451537,
        157 => 337163616,
        158 => 341914425,
        159 => 346704057,
        160 => 351532600,
        161 => 356400145,
        162 => 361306780,
        163 => 366252596,
        164 => 371237681,
        165 => 376262123,
        166 => 381326012,
        167 => 386429434,
        168 => 391572478,
        169 => 396755231,
        170 => 401977780,
        171 => 407240212,
        172 => 412542614,
        173 => 417885071,
        174 => 423267670,
        175 => 428690497,
        176 => 434153637,
        177 => 439657174,
        178 => 445201195,
        179 => 450785783,
        180 => 456411024,
        181 => 462077000,
        182 => 467783797,
        183 => 473531497,
        184 => 479320184,
        185 => 485149941,
        186 => 491020850,
        187 => 496932996,
        188 => 502886459,
        189 => 508881321,
        190 => 514917666,
        191 => 520995574,
        192 => 527115126,
        193 => 533276405,
        194 => 539479490,
        195 => 545724462,
        196 => 552011402,
        197 => 558340390,
        198 => 564711506,
        199 => 571124830,
        200 => 577580441,
        201 => 584078418,
        202 => 590618841,
        203 => 597201789,
        204 => 603827339,
        205 => 610495571,
        206 => 617206563,
        207 => 623960392,
        208 => 630757137,
        209 => 637596874,
        210 => 644479682,
        211 => 651405638,
        212 => 658374818,
        213 => 665387299,
        214 => 672443157,
        215 => 679542470,
        216 => 686685313,
        217 => 693871762,
        218 => 701101892,
        219 => 708375780,
        220 => 715693501,
        221 => 723055129,
        222 => 730460741,
        223 => 737910409,
        224 => 745404210,
        225 => 752942217,
        226 => 760524505,
        227 => 768151148,
        228 => 775822219,
        229 => 783537792,
        230 => 791297941,
        231 => 799102739,
        232 => 806952258,
        233 => 814846573,
        234 => 822785755,
        235 => 830769877,
        236 => 838799012,
        237 => 846873232,
        238 => 854992609,
        239 => 863157214,
        240 => 871367120,
        241 => 879622397,
        242 => 887923118,
        243 => 896269354,
        244 => 904661175,
        245 => 913098652,
        246 => 921581857,
        247 => 930110859,
        248 => 938685729,
        249 => 947306537,
        250 => 955973354,
        251 => 964686248,
        252 => 973445291,
        253 => 982250551,
        254 => 991102098,
        255 => 1000000000,
        _ => 1000000001,
    }
}

fn threshold(c: u16) -> (r: i128)
    ensures
        r == srgb_threshold(c),
{
    match c {
        1 => 303527,
        2 => 607054,
        3 => 910581,
        4 => 1214108,
        5 => 1517635,
        6 => 1821162,
        7 => 2124689,
        8 => 2428216,
        9 => 2731743,
        10 => 3035270,
        11 => 3346536,
        12 => 3676508,
        13 => 4024718,
        14 => 4391443,
        15 => 4776954,
        16 => 5181517,
        17 => 5605392,
        18 => 6048834,
        19 => 6512091,
        20 => 6995411,
        21 => 7499033,
        22 => 8023193,
        23 => 8568126,
        24 => 9134059,
        25 => 9721218,
        26 => 10329824,
        27 => 10960095,
        28 => 11612246,
        29 => 12286489,
        30 => 12983033,
        31 => 13702084,
        32 => 14443844,
        33 => 15208515,
        34 => 15996294,
        35 => 16807376,
        36 => 17641955,
        37 => 18500221,
        38 => 19382361,
        39 => 20288564,
        40 => 21219011,
        41 => 22173885,
        42 => 23153367,
        43 => 24157633,
        44 => 25186860,
        45 => 26241222,
        46 => 27320892,
        47 => 28426040,
        48 => 29556835,
        49 => 30713444,
        50 => 31896034,
        51 => 33104767,
        52 => 34339807,
        53 => 35601315,
        54 => 36889451,
        55 => 38204372,
        56 => 39546236,
        57 => 40915197,
        58 => 42311411,
        59 => 43735030,
        60 => 45186205,
        61 => 46665087,
        62 => 48171825,
        63 => 49706566,
        64 => 51269459,
        65 => 52860648,
        66 => 54480277,
        67 => 56128491,
        68 => 57805431,
        69 => 59511239,
        70 => 61246055,
        71 => 63010018,
        72 => 64803267,
        73 => 66625939,
        74 => 68478170,
        75 => 70360096,
        76 => 72271851,
        77 => 74213569,
        78 => 76185382,
        79 => 78187422,
        80 => 80219821,
        81 => 82282708,
        82 => 84376212,
        83 => 86500463,
        84 => 88655587,
        85 => 90841712,
        86 => 93058963,
        87 => 95307467,
        88 => 97587348,
        89 => 99898729,
        90 => 102241734,
        91 => 104616485,
        92 => 107023103,
        93 => 109461711,
        94 => 111932428,
        95 => 114435374,
        96 => 116970668,
        97 => 119538428,
        98 => 122138773,
        99 => 124771818,
        100 => 127437681,
        101 => 130136477,
        102 => 132868322,
        103 => 135633330,
        104 => 138431616,
        105 => 141263292,
        106 => 144128471,
        107 => 147027267,
        108 => 149959790,
        109 => 152926152,
        110 => 155926464,
        111 => 158960836,
        112 => 162029376,
        113 => 165132195,
        114 => 168269401,
        115 => 171441101,
        116 => 174647404,
        117 => 177888416,
        118 => 181164245,
        119 => 184474995,
        120 => 187820773,
        121 => 191201683,
        122 => 194617831,
        123 => 198069320,
        124 => 201556254,
        125 => 205078737,
        126 => 208636871,
        127 => 212230758,
        128 => 215860501,
        129 => 219526200,
        130 => 223227958,
        131 => 226965874,
        132 => 230740049,
        133 => 234550583,
        134 => 238397574,
        135 => 242281123,
        136 => 246201327,
        137 => 250158285,
        138 => 254152095,
        139 => 258182853,
        140 => 262250658,
        141 => 266355605,
        142 => 270497792,
        143 => 274677313,
        144 => 278894264,
        145 => 283148741,
        146 => 287440838,
        147 => 291770650,
        148 => 296138271,
        149 => 300543795,
        150 => 304987315,
        151 => 309468923,
        152 => 313988714,
        153 => 318546779,
        154 => 323143210,
        155 => 327778099,
        156 => 332451537,
        157 => 337163616,
        158 => 341914425,
        159 => 346704057,
        160 => 351532600,
        161 => 356400145,
        162 => 361306780,
        163 => 366252596,
        164 => 371237681,
        165 => 376262123,
        166 => 381326012,
        167 => 386429434,
        168 => 391572478,
        169 => 396755231,
        170 => 401977780,
        171 => 407240212,
        172 => 412542614,
        173 => 417885071,
        174 => 423267670,
        175 => 428690497,
        176 => 434153637,
        177 => 439657174,
        178 => 445201195,
        179 => 450785783,
        180 => 456411024,
        181 => 462077000,
        182 => 467783797,
        183 => 473531497,
        184 => 479320184,
        185 => 485149941,
        186 => 491020850,
        187 => 496932996,
        188 => 502886459,
        189 => 508881321,
        190 => 514917666,
        191 => 520995574,
        192 => 527115126,
        193 => 533276405,
        194 => 539479490,
        195 => 545724462,
        196 => 552011402,
        197 => 558340390,
        198 => 564711506,
        199 => 571124830,
        200 => 577580441,
        201 => 584078418,
        202 => 590618841,
        203 => 597201789,
        204 => 603827339,
        205 => 610495571,
        206 => 617206563,
        207 => 623960392,
        208 => 630757137,
        209 => 637596874,
        210 => 644479682,
        211 => 651405638,
        212 => 658374818,
        213 => 665387299,
        214 => 672443157,
        215 => 679542470,
        216 => 686685313,
        217 => 693871762,
        218 => 701101892,
        219 => 708375780,
        220 => 715693501,
        221 => 723055129,
        222 => 730460741,
        223 => 737910409,
        224 => 745404210,
        225 => 752942217,
        226 => 760524505,
        227 => 768151148,
        228 => 775822219,
        229 => 783537792,
        230 => 791297941,
        231 => 799102739,
        232 => 806952258,
        233 => 814846573,
        234 => 822785755,
        235 => 830769877,
        236 => 838799012,
        237 => 846873232,
        238 => 854992609,
        239 => 863157214,
        240 => 871367120,
        241 => 879622397,
        242 => 887923118,
        243 => 896269354,
        244 => 904661175,
        245 => 913098652,
        246 => 921581857,
        247 => 930110859,
        248 => 938685729,
        249 => 947306537,
        250 => 955973354,
        251 => 964686248,
        252 => 973445291,
        253 => 982250551,
        254 => 991102098,
        255 => 1000000000,
        _ => 1000000001,
    }
}

/// The 8-bit level of a linear-light value scaled by 10^9: the number of
/// levels from `c` on whose threshold it reaches, counting up from `c - 1`.
pub open spec fn encode_level(lin: int, c: int) -> int
    decreases 256 - c,
{
    if c > 255 || c < 1 || lin < srgb_threshold(c as u16) {
        c - 1
    } else {
        encode_level(lin, c + 1)
    }
}

/// One linear RGB component from XYZ, each scaled by 10^9, with the matrix
/// row given in units of 1/10000.
pub open spec fn linear_component(x: int, y: int, z: int, kx: int, ky: int, kz: int) -> int {
    div_toward_zero(kx * x + ky * y + kz * z, 10000)
}

/// The RGB colour of a Lab sample.
pub open spec fn lab_rgb(l: u8, a: u8, b: u8) -> (u8, u8, u8) {
    let ny = (100 * l as int + 4080) * 1000;
    let nx = ny + (a as int - 128) * 59160;
    let nz = ny - (b as int - 128) * 147900;
    let x = div_toward_zero(lab_pivot(nx) * 95047, 100000);
    let y = lab_pivot(ny);
    let z = div_toward_zero(lab_pivot(nz) * 108883, 100000);
    (
        encode_level(linear_component(x, y, z, 32406, -15372, -4986), 1) as u8,
        encode_level(linear_component(x, y, z, -9689, 18758, 415), 1) as u8,
        encode_level(linear_component(x, y, z, 557, -2040, 10570), 1) as u8,
    )
}

fn div_tz(n: i128, d: i128) -> (r: i128)
    requires
        d > 0,
        n > i128::MIN,
    ensures
        r == div_toward_zero(n as int, d as int),
{
    if n >= 0 {
        n / d
    } else {
        -((-n) / d)
    }
}

proof fn lemma_div_bound(n: int, d: int, m: int)
    requires
        d > 0,
        -m <= n <= m,
        m >= 0,
    ensures
        -m <= div_toward_zero(n, d) <= m,
{
    let k = if n >= 0 { n } else { -n };
    vstd::arithmetic::div_mod::lemma_div_pos_is_pos(k, d);
    vstd::arithmetic::div_mod::lemma_div_is_ordered_by_denominator(k, 1, d);
    vstd::arithmetic::div_mod::lemma_div_basics_2(k);
}

proof fn lemma_div_le(x: int, d: int, q: int)
    requires
        0 <= x,
        0 < d,
        0 <= q,
        x < (q + 1) * d,
    ensures
        0 <= x / d <= q,
{
    vstd::arithmetic::div_mod::lemma_fundamental_div_mod(x, d);
    vstd::arithmetic::div_mod::lemma_div_pos_is_pos(x, d);
    vstd::arithmetic::div_mod::lemma_mod_pos_bound(x, d);
    let t = x / d;
    assert(t <= q) by (nonlinear_arith)
        requires
            x == d * t + x % d,
            0 <= x % d,
            x < (q + 1) * d,
            0 < d,
    ;
}

#[verifier::rlimit(30)]
proof fn lemma_pivot_bound(n: int)
    requires
        -50000000 <= n <= 50000000,
    ensures
        -5000000000 <= lab_pivot(n) <= 5000000000,
{
    let d = lab_den();
    assert(-125000000000000000000000 <= n * n * n <= 125000000000000000000000) by (nonlinear_arith)
        requires
            -50000000 <= n <= 50000000,
    ;
    assert(d * d * d == 25881801912000000000000);
    if 125000 * (n * n * n) > 1107 * (d * d * d) {
        let num = n * n * n * 1000000000;
        assert(0 <= num);
        lemma_div_le(num, d * d * d, 5000000000);
    } else {
        let num = (116 * n - 16 * d) * 1000 * 1000000000;
        let den = 116 * 7787 * d;
        assert(den == 26719377360000);
        assert(-6273280000000000000000 <= num <= 6273280000000000000000);
        if num >= 0 {
            lemma_div_le(num, den, 5000000000);
        } else {
            lemma_div_le(-num, den, 5000000000);
        }
    }
}

fn pivot(n: i128) -> (r: i128)
    requires
        -50000000 <= n <= 50000000,
    ensures
        r == lab_pivot(n as int),
        -5000000000 <= r <= 5000000000,
{
    proof {
        lemma_pivot_bound(n as int);
        assert(-125000000000000000000000 <= n * n * n <= 125000000000000000000000) by (nonlinear_arith)
            requires
                -50000000 <= n <= 50000000,
        ;
        assert(-2500000000000000 <= n * n <= 2500000000000000) by (nonlinear_arith)
            requires
                -50000000 <= n <= 50000000,
        ;
    }
    let d: i128 = 29580000;
    let n3 = n * n * n;
    let d3: i128 = 25881801912000000000000;
    assert(d3 == d * d * d);
    if 125000 * n3 > 1107 * d3 {
        n3 * 1000000000 / d3
    } else {
        div_tz((116 * n - 16 * d) * 1000 * 1000000000, 116 * 7787 * d)
    }
}

fn level(lin: i128) -> (r: u8)
    ensures
        r as int == encode_level(lin as int, 1),
{
    let mut c: u16 = 1;
    while c <= 255 && lin >= threshold(c)
        invariant
            1 <= c <= 256,
            encode_level(lin as int, c as int) == encode_level(lin as int, 1),
        decreases 256 - c,
    {
        c = c + 1;
    }
    (c - 1) as u8
}

/// Converts a Lab sample to RGB.
#[verifier::rlimit(30)]
pub fn lab_to_rgb(l: u8, a: u8, b: u8) -> (r: (u8, u8, u8))
    ensures
        r == lab_rgb(l, a, b),
{
    let ny: i128 = (100 * l as i128 + 4080) * 1000;
    let nx: i128 = ny + (a as i128 - 128) * 59160;
    let nz: i128 = ny - (b as i128 - 128) * 147900;
    let px = pivot(nx);
    let py = pivot(ny);
    let pz = pivot(nz);
    let x = div_tz(px * 95047, 100000);
    let y = py;
    let z = div_tz(pz * 108883, 100000);
    proof {
        lemma_div_bound(px * 95047, 100000, 5000000000int * 95047);
        lemma_div_bound(pz * 108883, 100000, 5000000000int * 108883);
    }
    let r = level(div_tz(32406 * x - 15372 * y - 4986 * z, 10000));
    let g = level(div_tz(-9689 * x + 18758 * y + 415 * z, 10000));
    let bl = level(div_tz(557 * x - 2040 * y + 10570 * z, 10000));
    proof {
        lemma_level_range(div_toward_zero(32406 * x - 15372 * y - 4986 * z, 10000), 1);
        lemma_level_range(div_toward_zero(-9689 * x + 18758 * y + 415 * z, 10000), 1);
        lemma_level_range(div_toward_zero(557 * x - 2040 * y + 10570 * z, 10000), 1);
    }
    (r, g, bl)
}

proof fn lemma_level_range(lin: int, c: int)
    requires
        1 <= c <= 256,
    ensures
        0 <= c - 1 <= encode_level(lin, c) <= 255,
    decreases 256 - c,
{
    if 1 <= c <= 255 && lin >= srgb_threshold(c as u16) {
        lemma_level_range(lin, c + 1);
    }
}

} // verus!
