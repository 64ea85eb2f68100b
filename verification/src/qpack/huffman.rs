//! Huffman coding of string literals (RFC 7541 section 5.2 and Appendix B,
//! which QPACK uses, RFC 9204 section 4.1.2): each byte is written as its
//! code, most significant bit first, and the last byte is filled up with
//! the leading bits of the end-of-string code (all ones).
use vstd::prelude::*;
use vstd::arithmetic::power2::{pow2, lemma_pow2_adds, lemma_pow2_pos, lemma_pow2_unfold, lemma2_to64};
use vstd::arithmetic::div_mod::{lemma_div_denominator, lemma_fundamental_div_mod, lemma_fundamental_div_mod_converse_div, lemma_div_is_ordered, lemma_mod_multiples_vanish};
use vstd::arithmetic::mul::{lemma_mul_is_associative, lemma_mul_is_commutative};

verus! {

/// The code of symbol `s` (a byte, or 256 for end of string), as an integer
/// of `spec_huff_len(s)` bits (RFC 7541 Appendix B).
pub open spec fn spec_huff_code(s: u16) -> u32 {
    match s {
        0 => 0x1ff8,
        1 => 0x7fffd8,
        2 => 0xfffffe2,
        3 => 0xfffffe3,
        4 => 0xfffffe4,
        5 => 0xfffffe5,
        6 => 0xfffffe6,
        7 => 0xfffffe7,
        8 => 0xfffffe8,
        9 => 0xffffea,
        10 => 0x3ffffffc,
        11 => 0xfffffe9,
        12 => 0xfffffea,
        13 => 0x3ffffffd,
        14 => 0xfffffeb,
        15 => 0xfffffec,
        16 => 0xfffffed,
        17 => 0xfffffee,
        18 => 0xfffffef,
        19 => 0xffffff0,
        20 => 0xffffff1,
        21 => 0xffffff2,
        22 => 0x3ffffffe,
        23 => 0xffffff3,
        24 => 0xffffff4,
        25 => 0xffffff5,
        26 => 0xffffff6,
        27 => 0xffffff7,
        28 => 0xffffff8,
        29 => 0xffffff9,
        30 => 0xffffffa,
        31 => 0xffffffb,
        32 => 0x14,
        33 => 0x3f8,
        34 => 0x3f9,
        35 => 0xffa,
        36 => 0x1ff9,
        37 => 0x15,
        38 => 0xf8,
        39 => 0x7fa,
        40 => 0x3fa,
        41 => 0x3fb,
        42 => 0xf9,
        43 => 0x7fb,
        44 => 0xfa,
        45 => 0x16,
        46 => 0x17,
        47 => 0x18,
        48 => 0x0,
        49 => 0x1,
        50 => 0x2,
        51 => 0x19,
        52 => 0x1a,
        53 => 0x1b,
        54 => 0x1c,
        55 => 0x1d,
        56 => 0x1e,
        57 => 0x1f,
        58 => 0x5c,
        59 => 0xfb,
        60 => 0x7ffc,
        61 => 0x20,
        62 => 0xffb,
        63 => 0x3fc,
        64 => 0x1ffa,
        65 => 0x21,
        66 => 0x5d,
        67 => 0x5e,
        68 => 0x5f,
        69 => 0x60,
        70 => 0x61,
        71 => 0x62,
        72 => 0x63,
        73 => 0x64,
        74 => 0x65,
        75 => 0x66,
        76 => 0x67,
        77 => 0x68,
        78 => 0x69,
        79 => 0x6a,
        80 => 0x6b,
        81 => 0x6c,
        82 => 0x6d,
        83 => 0x6e,
        84 => 0x6f,
        85 => 0x70,
        86 => 0x71,
        87 => 0x72,
        88 => 0xfc,
        89 => 0x73,
        90 => 0xfd,
        91 => 0x1ffb,
        92 => 0x7fff0,
        93 => 0x1ffc,
        94 => 0x3ffc,
        95 => 0x22,
        96 => 0x7ffd,
        97 => 0x3,
        98 => 0x23,
        99 => 0x4,
        100 => 0x24,
        101 => 0x5,
        102 => 0x25,
        103 => 0x26,
        104 => 0x27,
        105 => 0x6,
        106 => 0x74,
        107 => 0x75,
        108 => 0x28,
        109 => 0x29,
        110 => 0x2a,
        111 => 0x7,
        112 => 0x2b,
        113 => 0x76,
        114 => 0x2c,
        115 => 0x8,
        116 => 0x9,
        117 => 0x2d,
        118 => 0x77,
        119 => 0x78,
        120 => 0x79,
        121 => 0x7a,
        122 => 0x7b,
        123 => 0x7ffe,
        124 => 0x7fc,
        125 => 0x3ffd,
        126 => 0x1ffd,
        127 => 0xffffffc,
        128 => 0xfffe6,
        129 => 0x3fffd2,
        130 => 0xfffe7,
        131 => 0xfffe8,
        132 => 0x3fffd3,
        133 => 0x3fffd4,
        134 => 0x3fffd5,
        135 => 0x7fffd9,
        136 => 0x3fffd6,
        137 => 0x7fffda,
        138 => 0x7fffdb,
        139 => 0x7fffdc,
        140 => 0x7fffdd,
        141 => 0x7fffde,
        142 => 0xffffeb,
        143 => 0x7fffdf,
        144 => 0xffffec,
        145 => 0xffffed,
        146 => 0x3fffd7,
        147 => 0x7fffe0,
        148 => 0xffffee,
        149 => 0x7fffe1,
        150 => 0x7fffe2,
        151 => 0x7fffe3,
        152 => 0x7fffe4,
        153 => 0x1fffdc,
        154 => 0x3fffd8,
        155 => 0x7fffe5,
        156 => 0x3fffd9,
        157 => 0x7fffe6,
        158 => 0x7fffe7,
        159 => 0xffffef,
        160 => 0x3fffda,
        161 => 0x1fffdd,
        162 => 0xfffe9,
        163 => 0x3fffdb,
        164 => 0x3fffdc,
        165 => 0x7fffe8,
        166 => 0x7fffe9,
        167 => 0x1fffde,
        168 => 0x7fffea,
        169 => 0x3fffdd,
        170 => 0x3fffde,
        171 => 0xfffff0,
        172 => 0x1fffdf,
        173 => 0x3fffdf,
        174 => 0x7fffeb,
        175 => 0x7fffec,
        176 => 0x1fffe0,
        177 => 0x1fffe1,
        178 => 0x3fffe0,
        179 => 0x1fffe2,
        180 => 0x7fffed,
        181 => 0x3fffe1,
        182 => 0x7fffee,
        183 => 0x7fffef,
        184 => 0xfffea,
        185 => 0x3fffe2,
        186 => 0x3fffe3,
        187 => 0x3fffe4,
        188 => 0x7ffff0,
        189 => 0x3fffe5,
        190 => 0x3fffe6,
        191 => 0x7ffff1,
        192 => 0x3ffffe0,
        193 => 0x3ffffe1,
        194 => 0xfffeb,
        195 => 0x7fff1,
        196 => 0x3fffe7,
        197 => 0x7ffff2,
        198 => 0x3fffe8,
        199 => 0x1ffffec,
        200 => 0x3ffffe2,
        201 => 0x3ffffe3,
        202 => 0x3ffffe4,
        203 => 0x7ffffde,
        204 => 0x7ffffdf,
        205 => 0x3ffffe5,
        206 => 0xfffff1,
        207 => 0x1ffffed,
        208 => 0x7fff2,
        209 => 0x1fffe3,
        210 => 0x3ffffe6,
        211 => 0x7ffffe0,
        212 => 0x7ffffe1,
        213 => 0x3ffffe7,
        214 => 0x7ffffe2,
        215 => 0xfffff2,
        216 => 0x1fffe4,
        217 => 0x1fffe5,
        218 => 0x3ffffe8,
        219 => 0x3ffffe9,
        220 => 0xffffffd,
        221 => 0x7ffffe3,
        222 => 0x7ffffe4,
        223 => 0x7ffffe5,
        224 => 0xfffec,
        225 => 0xfffff3,
        226 => 0xfffed,
        227 => 0x1fffe6,
        228 => 0x3fffe9,
        229 => 0x1fffe7,
        230 => 0x1fffe8,
        231 => 0x7ffff3,
        232 => 0x3fffea,
        233 => 0x3fffeb,
        234 => 0x1ffffee,
        235 => 0x1ffffef,
        236 => 0xfffff4,
        237 => 0xfffff5,
        238 => 0x3ffffea,
        239 => 0x7ffff4,
        240 => 0x3ffffeb,
        241 => 0x7ffffe6,
        242 => 0x3ffffec,
        243 => 0x3ffffed,
        244 => 0x7ffffe7,
        245 => 0x7ffffe8,
        246 => 0x7ffffe9,
        247 => 0x7ffffea,
        248 => 0x7ffffeb,
        249 => 0xffffffe,
        250 => 0x7ffffec,
        251 => 0x7ffffed,
        252 => 0x7ffffee,
        253 => 0x7ffffef,
        254 => 0x7fffff0,
        255 => 0x3ffffee,
        256 => 0x3fffffff,
        _ => 0,
    }
}

/// The length in bits of the code of symbol `s` (RFC 7541 Appendix B).
pub open spec fn spec_huff_len(s: u16) -> u8 {
    match s {
        0 => 13,
        1 => 23,
        2 => 28,
        3 => 28,
        4 => 28,
        5 => 28,
        6 => 28,
        7 => 28,
        8 => 28,
        9 => 24,
        10 => 30,
        11 => 28,
        12 => 28,
        13 => 30,
        14 => 28,
        15 => 28,
        16 => 28,
        17 => 28,
        18 => 28,
        19 => 28,
        20 => 28,
        21 => 28,
        22 => 30,
        23 => 28,
        24 => 28,
        25 => 28,
        26 => 28,
        27 => 28,
        28 => 28,
        29 => 28,
        30 => 28,
        31 => 28,
        32 => 6,
        33 => 10,
        34 => 10,
        35 => 12,
        36 => 13,
        37 => 6,
        38 => 8,
        39 => 11,
        40 => 10,
        41 => 10,
        42 => 8,
        43 => 11,
        44 => 8,
        45 => 6,
        46 => 6,
        47 => 6,
        48 => 5,
        49 => 5,
        50 => 5,
        51 => 6,
        52 => 6,
        53 => 6,
        54 => 6,
        55 => 6,
        56 => 6,
        57 => 6,
        58 => 7,
        59 => 8,
        60 => 15,
        61 => 6,
        62 => 12,
        63 => 10,
        64 => 13,
        65 => 6,
        66 => 7,
        67 => 7,
        68 => 7,
        69 => 7,
        70 => 7,
        71 => 7,
        72 => 7,
        73 => 7,
        74 => 7,
        75 => 7,
        76 => 7,
        77 => 7,
        78 => 7,
        79 => 7,
        80 => 7,
        81 => 7,
        82 => 7,
        83 => 7,
        84 => 7,
        85 => 7,
        86 => 7,
        87 => 7,
        88 => 8,
        89 => 7,
        90 => 8,
        91 => 13,
        92 => 19,
        93 => 13,
        94 => 14,
        95 => 6,
        96 => 15,
        97 => 5,
        98 => 6,
        99 => 5,
        100 => 6,
        101 => 5,
        102 => 6,
        103 => 6,
        104 => 6,
        105 => 5,
        106 => 7,
        107 => 7,
        108 => 6,
        109 => 6,
        110 => 6,
        111 => 5,
        112 => 6,
        113 => 7,
        114 => 6,
        115 => 5,
        116 => 5,
        117 => 6,
        118 => 7,
        119 => 7,
        120 => 7,
        121 => 7,
        122 => 7,
        123 => 15,
        124 => 11,
        125 => 14,
        126 => 13,
        127 => 28,
        128 => 20,
        129 => 22,
        130 => 20,
        131 => 20,
        132 => 22,
        133 => 22,
        134 => 22,
        135 => 23,
        136 => 22,
        137 => 23,
        138 => 23,
        139 => 23,
        140 => 23,
        141 => 23,
        142 => 24,
        143 => 23,
        144 => 24,
        145 => 24,
        146 => 22,
        147 => 23,
        148 => 24,
        149 => 23,
        150 => 23,
        151 => 23,
        152 => 23,
        153 => 21,
        154 => 22,
        155 => 23,
        156 => 22,
        157 => 23,
        158 => 23,
        159 => 24,
        160 => 22,
        161 => 21,
        162 => 20,
        163 => 22,
        164 => 22,
        165 => 23,
        166 => 23,
        167 => 21,
        168 => 23,
        169 => 22,
        170 => 22,
        171 => 24,
        172 => 21,
        173 => 22,
        174 => 23,
        175 => 23,
        176 => 21,
        177 => 21,
        178 => 22,
        179 => 21,
        180 => 23,
        181 => 22,
        182 => 23,
        183 => 23,
        184 => 20,
        185 => 22,
        186 => 22,
        187 => 22,
        188 => 23,
        189 => 22,
        190 => 22,
        191 => 23,
        192 => 26,
        193 => 26,
        194 => 20,
        195 => 19,
        196 => 22,
        197 => 23,
        198 => 22,
        199 => 25,
        200 => 26,
        201 => 26,
        202 => 26,
        203 => 27,
        204 => 27,
        205 => 26,
        206 => 24,
        207 => 25,
        208 => 19,
        209 => 21,
        210 => 26,
        211 => 27,
        212 => 27,
        213 => 26,
        214 => 27,
        215 => 24,
        216 => 21,
        217 => 21,
        218 => 26,
        219 => 26,
        220 => 28,
        221 => 27,
        222 => 27,
        223 => 27,
        224 => 20,
        225 => 24,
        226 => 20,
        227 => 21,
        228 => 22,
        229 => 21,
        230 => 21,
        231 => 23,
        232 => 22,
        233 => 22,
        234 => 25,
        235 => 25,
        236 => 24,
        237 => 24,
        238 => 26,
        239 => 23,
        240 => 26,
        241 => 27,
        242 => 26,
        243 => 26,
        244 => 27,
        245 => 27,
        246 => 27,
        247 => 27,
        248 => 27,
        249 => 28,
        250 => 27,
        251 => 27,
        252 => 27,
        253 => 27,
        254 => 27,
        255 => 26,
        256 => 30,
        _ => 0,
    }
}

/// The symbol whose code of `l` bits is `x`, if any.
pub open spec fn spec_huff_sym(l: u8, x: u32) -> Option<u16> {
    match (l, x) {
        (13, 0x1ff8) => Some(0),
        (23, 0x7fffd8) => Some(1),
        (28, 0xfffffe2) => Some(2),
        (28, 0xfffffe3) => Some(3),
        (28, 0xfffffe4) => Some(4),
        (28, 0xfffffe5) => Some(5),
        (28, 0xfffffe6) => Some(6),
        (28, 0xfffffe7) => Some(7),
        (28, 0xfffffe8) => Some(8),
        (24, 0xffffea) => Some(9),
        (30, 0x3ffffffc) => Some(10),
        (28, 0xfffffe9) => Some(11),
        (28, 0xfffffea) => Some(12),
        (30, 0x3ffffffd) => Some(13),
        (28, 0xfffffeb) => Some(14),
        (28, 0xfffffec) => Some(15),
        (28, 0xfffffed) => Some(16),
        (28, 0xfffffee) => Some(17),
        (28, 0xfffffef) => Some(18),
        (28, 0xffffff0) => Some(19),
        (28, 0xffffff1) => Some(20),
        (28, 0xffffff2) => Some(21),
        (30, 0x3ffffffe) => Some(22),
        (28, 0xffffff3) => Some(23),
        (28, 0xffffff4) => Some(24),
        (28, 0xffffff5) => Some(25),
        (28, 0xffffff6) => Some(26),
        (28, 0xffffff7) => Some(27),
        (28, 0xffffff8) => Some(28),
        (28, 0xffffff9) => Some(29),
        (28, 0xffffffa) => Some(30),
        (28, 0xffffffb) => Some(31),
        (6, 0x14) => Some(32),
        (10, 0x3f8) => Some(33),
        (10, 0x3f9) => Some(34),
        (12, 0xffa) => Some(35),
        (13, 0x1ff9) => Some(36),
        (6, 0x15) => Some(37),
        (8, 0xf8) => Some(38),
        (11, 0x7fa) => Some(39),
        (10, 0x3fa) => Some(40),
        (10, 0x3fb) => Some(41),
        (8, 0xf9) => Some(42),
        (11, 0x7fb) => Some(43),
        (8, 0xfa) => Some(44),
        (6, 0x16) => Some(45),
        (6, 0x17) => Some(46),
        (6, 0x18) => Some(47),
        (5, 0x0) => Some(48),
        (5, 0x1) => Some(49),
        (5, 0x2) => Some(50),
        (6, 0x19) => Some(51),
        (6, 0x1a) => Some(52),
        (6, 0x1b) => Some(53),
        (6, 0x1c) => Some(54),
        (6, 0x1d) => Some(55),
        (6, 0x1e) => Some(56),
        (6, 0x1f) => Some(57),
        (7, 0x5c) => Some(58),
        (8, 0xfb) => Some(59),
        (15, 0x7ffc) => Some(60),
        (6, 0x20) => Some(61),
        (12, 0xffb) => Some(62),
        (10, 0x3fc) => Some(63),
        (13, 0x1ffa) => Some(64),
        (6, 0x21) => Some(65),
        (7, 0x5d) => Some(66),
        (7, 0x5e) => Some(67),
        (7, 0x5f) => Some(68),
        (7, 0x60) => Some(69),
        (7, 0x61) => Some(70),
        (7, 0x62) => Some(71),
        (7, 0x63) => Some(72),
        (7, 0x64) => Some(73),
        (7, 0x65) => Some(74),
        (7, 0x66) => Some(75),
        (7, 0x67) => Some(76),
        (7, 0x68) => Some(77),
        (7, 0x69) => Some(78),
        (7, 0x6a) => Some(79),
        (7, 0x6b) => Some(80),
        (7, 0x6c) => Some(81),
        (7, 0x6d) => Some(82),
        (7, 0x6e) => Some(83),
        (7, 0x6f) => Some(84),
        (7, 0x70) => Some(85),
        (7, 0x71) => Some(86),
        (7, 0x72) => Some(87),
        (8, 0xfc) => Some(88),
        (7, 0x73) => Some(89),
        (8, 0xfd) => Some(90),
        (13, 0x1ffb) => Some(91),
        (19, 0x7fff0) => Some(92),
        (13, 0x1ffc) => Some(93),
        (14, 0x3ffc) => Some(94),
        (6, 0x22) => Some(95),
        (15, 0x7ffd) => Some(96),
        (5, 0x3) => Some(97),
        (6, 0x23) => Some(98),
        (5, 0x4) => Some(99),
        (6, 0x24) => Some(100),
        (5, 0x5) => Some(101),
        (6, 0x25) => Some(102),
        (6, 0x26) => Some(103),
        (6, 0x27) => Some(104),
        (5, 0x6) => Some(105),
        (7, 0x74) => Some(106),
        (7, 0x75) => Some(107),
        (6, 0x28) => Some(108),
        (6, 0x29) => Some(109),
        (6, 0x2a) => Some(110),
        (5, 0x7) => Some(111),
        (6, 0x2b) => Some(112),
        (7, 0x76) => Some(113),
        (6, 0x2c) => Some(114),
        (5, 0x8) => Some(115),
        (5, 0x9) => Some(116),
        (6, 0x2d) => Some(117),
        (7, 0x77) => Some(118),
        (7, 0x78) => Some(119),
        (7, 0x79) => Some(120),
        (7, 0x7a) => Some(121),
        (7, 0x7b) => Some(122),
        (15, 0x7ffe) => Some(123),
        (11, 0x7fc) => Some(124),
        (14, 0x3ffd) => Some(125),
        (13, 0x1ffd) => Some(126),
        (28, 0xffffffc) => Some(127),
        (20, 0xfffe6) => Some(128),
        (22, 0x3fffd2) => Some(129),
        (20, 0xfffe7) => Some(130),
        (20, 0xfffe8) => Some(131),
        (22, 0x3fffd3) => Some(132),
        (22, 0x3fffd4) => Some(133),
        (22, 0x3fffd5) => Some(134),
        (23, 0x7fffd9) => Some(135),
        (22, 0x3fffd6) => Some(136),
        (23, 0x7fffda) => Some(137),
        (23, 0x7fffdb) => Some(138),
        (23, 0x7fffdc) => Some(139),
        (23, 0x7fffdd) => Some(140),
        (23, 0x7fffde) => Some(141),
        (24, 0xffffeb) => Some(142),
        (23, 0x7fffdf) => Some(143),
        (24, 0xffffec) => Some(144),
        (24, 0xffffed) => Some(145),
        (22, 0x3fffd7) => Some(146),
        (23, 0x7fffe0) => Some(147),
        (24, 0xffffee) => Some(148),
        (23, 0x7fffe1) => Some(149),
        (23, 0x7fffe2) => Some(150),
        (23, 0x7fffe3) => Some(151),
        (23, 0x7fffe4) => Some(152),
        (21, 0x1fffdc) => Some(153),
        (22, 0x3fffd8) => Some(154),
        (23, 0x7fffe5) => Some(155),
        (22, 0x3fffd9) => Some(156),
        (23, 0x7fffe6) => Some(157),
        (23, 0x7fffe7) => Some(158),
        (24, 0xffffef) => Some(159),
        (22, 0x3fffda) => Some(160),
        (21, 0x1fffdd) => Some(161),
        (20, 0xfffe9) => Some(162),
        (22, 0x3fffdb) => Some(163),
        (22, 0x3fffdc) => Some(164),
        (23, 0x7fffe8) => Some(165),
        (23, 0x7fffe9) => Some(166),
        (21, 0x1fffde) => Some(167),
        (23, 0x7fffea) => Some(168),
        (22, 0x3fffdd) => Some(169),
        (22, 0x3fffde) => Some(170),
        (24, 0xfffff0) => Some(171),
        (21, 0x1fffdf) => Some(172),
        (22, 0x3fffdf) => Some(173),
        (23, 0x7fffeb) => Some(174),
        (23, 0x7fffec) => Some(175),
        (21, 0x1fffe0) => Some(176),
        (21, 0x1fffe1) => Some(177),
        (22, 0x3fffe0) => Some(178),
        (21, 0x1fffe2) => Some(179),
        (23, 0x7fffed) => Some(180),
        (22, 0x3fffe1) => Some(181),
        (23, 0x7fffee) => Some(182),
        (23, 0x7fffef) => Some(183),
        (20, 0xfffea) => Some(184),
        (22, 0x3fffe2) => Some(185),
        (22, 0x3fffe3) => Some(186),
        (22, 0x3fffe4) => Some(187),
        (23, 0x7ffff0) => Some(188),
        (22, 0x3fffe5) => Some(189),
        (22, 0x3fffe6) => Some(190),
        (23, 0x7ffff1) => Some(191),
        (26, 0x3ffffe0) => Some(192),
        (26, 0x3ffffe1) => Some(193),
        (20, 0xfffeb) => Some(194),
        (19, 0x7fff1) => Some(195),
        (22, 0x3fffe7) => Some(196),
        (23, 0x7ffff2) => Some(197),
        (22, 0x3fffe8) => Some(198),
        (25, 0x1ffffec) => Some(199),
        (26, 0x3ffffe2) => Some(200),
        (26, 0x3ffffe3) => Some(201),
        (26, 0x3ffffe4) => Some(202),
        (27, 0x7ffffde) => Some(203),
        (27, 0x7ffffdf) => Some(204),
        (26, 0x3ffffe5) => Some(205),
        (24, 0xfffff1) => Some(206),
        (25, 0x1ffffed) => Some(207),
        (19, 0x7fff2) => Some(208),
        (21, 0x1fffe3) => Some(209),
        (26, 0x3ffffe6) => Some(210),
        (27, 0x7ffffe0) => Some(211),
        (27, 0x7ffffe1) => Some(212),
        (26, 0x3ffffe7) => Some(213),
        (27, 0x7ffffe2) => Some(214),
        (24, 0xfffff2) => Some(215),
        (21, 0x1fffe4) => Some(216),
        (21, 0x1fffe5) => Some(217),
        (26, 0x3ffffe8) => Some(218),
        (26, 0x3ffffe9) => Some(219),
        (28, 0xffffffd) => Some(220),
        (27, 0x7ffffe3) => Some(221),
        (27, 0x7ffffe4) => Some(222),
        (27, 0x7ffffe5) => Some(223),
        (20, 0xfffec) => Some(224),
        (24, 0xfffff3) => Some(225),
        (20, 0xfffed) => Some(226),
        (21, 0x1fffe6) => Some(227),
        (22, 0x3fffe9) => Some(228),
        (21, 0x1fffe7) => Some(229),
        (21, 0x1fffe8) => Some(230),
        (23, 0x7ffff3) => Some(231),
        (22, 0x3fffea) => Some(232),
        (22, 0x3fffeb) => Some(233),
        (25, 0x1ffffee) => Some(234),
        (25, 0x1ffffef) => Some(235),
        (24, 0xfffff4) => Some(236),
        (24, 0xfffff5) => Some(237),
        (26, 0x3ffffea) => Some(238),
        (23, 0x7ffff4) => Some(239),
        (26, 0x3ffffeb) => Some(240),
        (27, 0x7ffffe6) => Some(241),
        (26, 0x3ffffec) => Some(242),
        (26, 0x3ffffed) => Some(243),
        (27, 0x7ffffe7) => Some(244),
        (27, 0x7ffffe8) => Some(245),
        (27, 0x7ffffe9) => Some(246),
        (27, 0x7ffffea) => Some(247),
        (27, 0x7ffffeb) => Some(248),
        (28, 0xffffffe) => Some(249),
        (27, 0x7ffffec) => Some(250),
        (27, 0x7ffffed) => Some(251),
        (27, 0x7ffffee) => Some(252),
        (27, 0x7ffffef) => Some(253),
        (27, 0x7fffff0) => Some(254),
        (26, 0x3ffffee) => Some(255),
        (30, 0x3fffffff) => Some(256),
        _ => None,
    }
}

/// The first code of `l` bits: codes are canonical, those of one length
/// consecutive in the order of their symbols.
pub open spec fn spec_huff_first(l: nat) -> nat {
    if l == 0 { 0 } else if l == 1 { 0 } else if l == 2 { 0 } else if l == 3 { 0 } else if l == 4 { 0 } else if l == 5 { 0 } else if l == 6 { 20 } else if l == 7 { 92 } else if l == 8 { 248 } else if l == 9 { 508 } else if l == 10 { 1016 } else if l == 11 { 2042 } else if l == 12 { 4090 } else if l == 13 { 8184 } else if l == 14 { 16380 } else if l == 15 { 32764 } else if l == 16 { 65534 } else if l == 17 { 131068 } else if l == 18 { 262136 } else if l == 19 { 524272 } else if l == 20 { 1048550 } else if l == 21 { 2097116 } else if l == 22 { 4194258 } else if l == 23 { 8388568 } else if l == 24 { 16777194 } else if l == 25 { 33554412 } else if l == 26 { 67108832 } else if l == 27 { 134217694 } else if l == 28 { 268435426 } else if l == 29 { 536870910 } else if l == 30 { 1073741820 } else { 0 }
}

/// How many codes have `l` bits.
pub open spec fn spec_huff_count(l: nat) -> nat {
    if l == 5 { 10 } else if l == 6 { 26 } else if l == 7 { 32 } else if l == 8 { 6 } else if l == 10 { 5 } else if l == 11 { 3 } else if l == 12 { 2 } else if l == 13 { 6 } else if l == 14 { 2 } else if l == 15 { 3 } else if l == 19 { 3 } else if l == 20 { 8 } else if l == 21 { 13 } else if l == 22 { 26 } else if l == 23 { 29 } else if l == 24 { 12 } else if l == 25 { 4 } else if l == 26 { 15 } else if l == 27 { 19 } else if l == 28 { 29 } else if l == 30 { 4 } else { 0 }
}

/// The code and its length of byte `b`.
fn huff_code(b: u8) -> (r: (u32, u8))
    ensures
        r.0 == spec_huff_code(b as u16),
        r.1 == spec_huff_len(b as u16),
{
    match b {
        0 => (0x1ff8, 13),
        1 => (0x7fffd8, 23),
        2 => (0xfffffe2, 28),
        3 => (0xfffffe3, 28),
        4 => (0xfffffe4, 28),
        5 => (0xfffffe5, 28),
        6 => (0xfffffe6, 28),
        7 => (0xfffffe7, 28),
        8 => (0xfffffe8, 28),
        9 => (0xffffea, 24),
        10 => (0x3ffffffc, 30),
        11 => (0xfffffe9, 28),
        12 => (0xfffffea, 28),
        13 => (0x3ffffffd, 30),
        14 => (0xfffffeb, 28),
        15 => (0xfffffec, 28),
        16 => (0xfffffed, 28),
        17 => (0xfffffee, 28),
        18 => (0xfffffef, 28),
        19 => (0xffffff0, 28),
        20 => (0xffffff1, 28),
        21 => (0xffffff2, 28),
        22 => (0x3ffffffe, 30),
        23 => (0xffffff3, 28),
        24 => (0xffffff4, 28),
        25 => (0xffffff5, 28),
        26 => (0xffffff6, 28),
        27 => (0xffffff7, 28),
        28 => (0xffffff8, 28),
        29 => (0xffffff9, 28),
        30 => (0xffffffa, 28),
        31 => (0xffffffb, 28),
        32 => (0x14, 6),
        33 => (0x3f8, 10),
        34 => (0x3f9, 10),
        35 => (0xffa, 12),
        36 => (0x1ff9, 13),
        37 => (0x15, 6),
        38 => (0xf8, 8),
        39 => (0x7fa, 11),
        40 => (0x3fa, 10),
        41 => (0x3fb, 10),
        42 => (0xf9, 8),
        43 => (0x7fb, 11),
        44 => (0xfa, 8),
        45 => (0x16, 6),
        46 => (0x17, 6),
        47 => (0x18, 6),
        48 => (0x0, 5),
        49 => (0x1, 5),
        50 => (0x2, 5),
        51 => (0x19, 6),
        52 => (0x1a, 6),
        53 => (0x1b, 6),
        54 => (0x1c, 6),
        55 => (0x1d, 6),
        56 => (0x1e, 6),
        57 => (0x1f, 6),
        58 => (0x5c, 7),
        59 => (0xfb, 8),
        60 => (0x7ffc, 15),
        61 => (0x20, 6),
        62 => (0xffb, 12),
        63 => (0x3fc, 10),
        64 => (0x1ffa, 13),
        65 => (0x21, 6),
        66 => (0x5d, 7),
        67 => (0x5e, 7),
        68 => (0x5f, 7),
        69 => (0x60, 7),
        70 => (0x61, 7),
        71 => (0x62, 7),
        72 => (0x63, 7),
        73 => (0x64, 7),
        74 => (0x65, 7),
        75 => (0x66, 7),
        76 => (0x67, 7),
        77 => (0x68, 7),
        78 => (0x69, 7),
        79 => (0x6a, 7),
        80 => (0x6b, 7),
        81 => (0x6c, 7),
        82 => (0x6d, 7),
        83 => (0x6e, 7),
        84 => (0x6f, 7),
        85 => (0x70, 7),
        86 => (0x71, 7),
        87 => (0x72, 7),
        88 => (0xfc, 8),
        89 => (0x73, 7),
        90 => (0xfd, 8),
        91 => (0x1ffb, 13),
        92 => (0x7fff0, 19),
        93 => (0x1ffc, 13),
        94 => (0x3ffc, 14),
        95 => (0x22, 6),
        96 => (0x7ffd, 15),
        97 => (0x3, 5),
        98 => (0x23, 6),
        99 => (0x4, 5),
        100 => (0x24, 6),
        101 => (0x5, 5),
        102 => (0x25, 6),
        103 => (0x26, 6),
        104 => (0x27, 6),
        105 => (0x6, 5),
        106 => (0x74, 7),
        107 => (0x75, 7),
        108 => (0x28, 6),
        109 => (0x29, 6),
        110 => (0x2a, 6),
        111 => (0x7, 5),
        112 => (0x2b, 6),
        113 => (0x76, 7),
        114 => (0x2c, 6),
        115 => (0x8, 5),
        116 => (0x9, 5),
        117 => (0x2d, 6),
        118 => (0x77, 7),
        119 => (0x78, 7),
        120 => (0x79, 7),
        121 => (0x7a, 7),
        122 => (0x7b, 7),
        123 => (0x7ffe, 15),
        124 => (0x7fc, 11),
        125 => (0x3ffd, 14),
        126 => (0x1ffd, 13),
        127 => (0xffffffc, 28),
        128 => (0xfffe6, 20),
        129 => (0x3fffd2, 22),
        130 => (0xfffe7, 20),
        131 => (0xfffe8, 20),
        132 => (0x3fffd3, 22),
        133 => (0x3fffd4, 22),
        134 => (0x3fffd5, 22),
        135 => (0x7fffd9, 23),
        136 => (0x3fffd6, 22),
        137 => (0x7fffda, 23),
        138 => (0x7fffdb, 23),
        139 => (0x7fffdc, 23),
        140 => (0x7fffdd, 23),
        141 => (0x7fffde, 23),
        142 => (0xffffeb, 24),
        143 => (0x7fffdf, 23),
        144 => (0xffffec, 24),
        145 => (0xffffed, 24),
        146 => (0x3fffd7, 22),
        147 => (0x7fffe0, 23),
        148 => (0xffffee, 24),
        149 => (0x7fffe1, 23),
        150 => (0x7fffe2, 23),
        151 => (0x7fffe3, 23),
        152 => (0x7fffe4, 23),
        153 => (0x1fffdc, 21),
        154 => (0x3fffd8, 22),
        155 => (0x7fffe5, 23),
        156 => (0x3fffd9, 22),
        157 => (0x7fffe6, 23),
        158 => (0x7fffe7, 23),
        159 => (0xffffef, 24),
        160 => (0x3fffda, 22),
        161 => (0x1fffdd, 21),
        162 => (0xfffe9, 20),
        163 => (0x3fffdb, 22),
        164 => (0x3fffdc, 22),
        165 => (0x7fffe8, 23),
        166 => (0x7fffe9, 23),
        167 => (0x1fffde, 21),
        168 => (0x7fffea, 23),
        169 => (0x3fffdd, 22),
        170 => (0x3fffde, 22),
        171 => (0xfffff0, 24),
        172 => (0x1fffdf, 21),
        173 => (0x3fffdf, 22),
        174 => (0x7fffeb, 23),
        175 => (0x7fffec, 23),
        176 => (0x1fffe0, 21),
        177 => (0x1fffe1, 21),
        178 => (0x3fffe0, 22),
        179 => (0x1fffe2, 21),
        180 => (0x7fffed, 23),
        181 => (0x3fffe1, 22),
        182 => (0x7fffee, 23),
        183 => (0x7fffef, 23),
        184 => (0xfffea, 20),
        185 => (0x3fffe2, 22),
        186 => (0x3fffe3, 22),
        187 => (0x3fffe4, 22),
        188 => (0x7ffff0, 23),
        189 => (0x3fffe5, 22),
        190 => (0x3fffe6, 22),
        191 => (0x7ffff1, 23),
        192 => (0x3ffffe0, 26),
        193 => (0x3ffffe1, 26),
        194 => (0xfffeb, 20),
        195 => (0x7fff1, 19),
        196 => (0x3fffe7, 22),
        197 => (0x7ffff2, 23),
        198 => (0x3fffe8, 22),
        199 => (0x1ffffec, 25),
        200 => (0x3ffffe2, 26),
        201 => (0x3ffffe3, 26),
        202 => (0x3ffffe4, 26),
        203 => (0x7ffffde, 27),
        204 => (0x7ffffdf, 27),
        205 => (0x3ffffe5, 26),
        206 => (0xfffff1, 24),
        207 => (0x1ffffed, 25),
        208 => (0x7fff2, 19),
        209 => (0x1fffe3, 21),
        210 => (0x3ffffe6, 26),
        211 => (0x7ffffe0, 27),
        212 => (0x7ffffe1, 27),
        213 => (0x3ffffe7, 26),
        214 => (0x7ffffe2, 27),
        215 => (0xfffff2, 24),
        216 => (0x1fffe4, 21),
        217 => (0x1fffe5, 21),
        218 => (0x3ffffe8, 26),
        219 => (0x3ffffe9, 26),
        220 => (0xffffffd, 28),
        221 => (0x7ffffe3, 27),
        222 => (0x7ffffe4, 27),
        223 => (0x7ffffe5, 27),
        224 => (0xfffec, 20),
        225 => (0xfffff3, 24),
        226 => (0xfffed, 20),
        227 => (0x1fffe6, 21),
        228 => (0x3fffe9, 22),
        229 => (0x1fffe7, 21),
        230 => (0x1fffe8, 21),
        231 => (0x7ffff3, 23),
        232 => (0x3fffea, 22),
        233 => (0x3fffeb, 22),
        234 => (0x1ffffee, 25),
        235 => (0x1ffffef, 25),
        236 => (0xfffff4, 24),
        237 => (0xfffff5, 24),
        238 => (0x3ffffea, 26),
        239 => (0x7ffff4, 23),
        240 => (0x3ffffeb, 26),
        241 => (0x7ffffe6, 27),
        242 => (0x3ffffec, 26),
        243 => (0x3ffffed, 26),
        244 => (0x7ffffe7, 27),
        245 => (0x7ffffe8, 27),
        246 => (0x7ffffe9, 27),
        247 => (0x7ffffea, 27),
        248 => (0x7ffffeb, 27),
        249 => (0xffffffe, 28),
        250 => (0x7ffffec, 27),
        251 => (0x7ffffed, 27),
        252 => (0x7ffffee, 27),
        253 => (0x7ffffef, 27),
        254 => (0x7fffff0, 27),
        255 => (0x3ffffee, 26),
    }
}

/// The symbol whose code of `l` bits is `x`, if any.
fn huff_sym(l: u8, x: u32) -> (r: Option<u16>)
    ensures
        r == spec_huff_sym(l, x),
{
    match (l, x) {
        (13, 0x1ff8) => Some(0),
        (23, 0x7fffd8) => Some(1),
        (28, 0xfffffe2) => Some(2),
        (28, 0xfffffe3) => Some(3),
        (28, 0xfffffe4) => Some(4),
        (28, 0xfffffe5) => Some(5),
        (28, 0xfffffe6) => Some(6),
        (28, 0xfffffe7) => Some(7),
        (28, 0xfffffe8) => Some(8),
        (24, 0xffffea) => Some(9),
        (30, 0x3ffffffc) => Some(10),
        (28, 0xfffffe9) => Some(11),
        (28, 0xfffffea) => Some(12),
        (30, 0x3ffffffd) => Some(13),
        (28, 0xfffffeb) => Some(14),
        (28, 0xfffffec) => Some(15),
        (28, 0xfffffed) => Some(16),
        (28, 0xfffffee) => Some(17),
        (28, 0xfffffef) => Some(18),
        (28, 0xffffff0) => Some(19),
        (28, 0xffffff1) => Some(20),
        (28, 0xffffff2) => Some(21),
        (30, 0x3ffffffe) => Some(22),
        (28, 0xffffff3) => Some(23),
        (28, 0xffffff4) => Some(24),
        (28, 0xffffff5) => Some(25),
        (28, 0xffffff6) => Some(26),
        (28, 0xffffff7) => Some(27),
        (28, 0xffffff8) => Some(28),
        (28, 0xffffff9) => Some(29),
        (28, 0xffffffa) => Some(30),
        (28, 0xffffffb) => Some(31),
        (6, 0x14) => Some(32),
        (10, 0x3f8) => Some(33),
        (10, 0x3f9) => Some(34),
        (12, 0xffa) => Some(35),
        (13, 0x1ff9) => Some(36),
        (6, 0x15) => Some(37),
        (8, 0xf8) => Some(38),
        (11, 0x7fa) => Some(39),
        (10, 0x3fa) => Some(40),
        (10, 0x3fb) => Some(41),
        (8, 0xf9) => Some(42),
        (11, 0x7fb) => Some(43),
        (8, 0xfa) => Some(44),
        (6, 0x16) => Some(45),
        (6, 0x17) => Some(46),
        (6, 0x18) => Some(47),
        (5, 0x0) => Some(48),
        (5, 0x1) => Some(49),
        (5, 0x2) => Some(50),
        (6, 0x19) => Some(51),
        (6, 0x1a) => Some(52),
        (6, 0x1b) => Some(53),
        (6, 0x1c) => Some(54),
        (6, 0x1d) => Some(55),
        (6, 0x1e) => Some(56),
        (6, 0x1f) => Some(57),
        (7, 0x5c) => Some(58),
        (8, 0xfb) => Some(59),
        (15, 0x7ffc) => Some(60),
        (6, 0x20) => Some(61),
        (12, 0xffb) => Some(62),
        (10, 0x3fc) => Some(63),
        (13, 0x1ffa) => Some(64),
        (6, 0x21) => Some(65),
        (7, 0x5d) => Some(66),
        (7, 0x5e) => Some(67),
        (7, 0x5f) => Some(68),
        (7, 0x60) => Some(69),
        (7, 0x61) => Some(70),
        (7, 0x62) => Some(71),
        (7, 0x63) => Some(72),
        (7, 0x64) => Some(73),
        (7, 0x65) => Some(74),
        (7, 0x66) => Some(75),
        (7, 0x67) => Some(76),
        (7, 0x68) => Some(77),
        (7, 0x69) => Some(78),
        (7, 0x6a) => Some(79),
        (7, 0x6b) => Some(80),
        (7, 0x6c) => Some(81),
        (7, 0x6d) => Some(82),
        (7, 0x6e) => Some(83),
        (7, 0x6f) => Some(84),
        (7, 0x70) => Some(85),
        (7, 0x71) => Some(86),
        (7, 0x72) => Some(87),
        (8, 0xfc) => Some(88),
        (7, 0x73) => Some(89),
        (8, 0xfd) => Some(90),
        (13, 0x1ffb) => Some(91),
        (19, 0x7fff0) => Some(92),
        (13, 0x1ffc) => Some(93),
        (14, 0x3ffc) => Some(94),
        (6, 0x22) => Some(95),
        (15, 0x7ffd) => Some(96),
        (5, 0x3) => Some(97),
        (6, 0x23) => Some(98),
        (5, 0x4) => Some(99),
        (6, 0x24) => Some(100),
        (5, 0x5) => Some(101),
        (6, 0x25) => Some(102),
        (6, 0x26) => Some(103),
        (6, 0x27) => Some(104),
        (5, 0x6) => Some(105),
        (7, 0x74) => Some(106),
        (7, 0x75) => Some(107),
        (6, 0x28) => Some(108),
        (6, 0x29) => Some(109),
        (6, 0x2a) => Some(110),
        (5, 0x7) => Some(111),
        (6, 0x2b) => Some(112),
        (7, 0x76) => Some(113),
        (6, 0x2c) => Some(114),
        (5, 0x8) => Some(115),
        (5, 0x9) => Some(116),
        (6, 0x2d) => Some(117),
        (7, 0x77) => Some(118),
        (7, 0x78) => Some(119),
        (7, 0x79) => Some(120),
        (7, 0x7a) => Some(121),
        (7, 0x7b) => Some(122),
        (15, 0x7ffe) => Some(123),
        (11, 0x7fc) => Some(124),
        (14, 0x3ffd) => Some(125),
        (13, 0x1ffd) => Some(126),
        (28, 0xffffffc) => Some(127),
        (20, 0xfffe6) => Some(128),
        (22, 0x3fffd2) => Some(129),
        (20, 0xfffe7) => Some(130),
        (20, 0xfffe8) => Some(131),
        (22, 0x3fffd3) => Some(132),
        (22, 0x3fffd4) => Some(133),
        (22, 0x3fffd5) => Some(134),
        (23, 0x7fffd9) => Some(135),
        (22, 0x3fffd6) => Some(136),
        (23, 0x7fffda) => Some(137),
        (23, 0x7fffdb) => Some(138),
        (23, 0x7fffdc) => Some(139),
        (23, 0x7fffdd) => Some(140),
        (23, 0x7fffde) => Some(141),
        (24, 0xffffeb) => Some(142),
        (23, 0x7fffdf) => Some(143),
        (24, 0xffffec) => Some(144),
        (24, 0xffffed) => Some(145),
        (22, 0x3fffd7) => Some(146),
        (23, 0x7fffe0) => Some(147),
        (24, 0xffffee) => Some(148),
        (23, 0x7fffe1) => Some(149),
        (23, 0x7fffe2) => Some(150),
        (23, 0x7fffe3) => Some(151),
        (23, 0x7fffe4) => Some(152),
        (21, 0x1fffdc) => Some(153),
        (22, 0x3fffd8) => Some(154),
        (23, 0x7fffe5) => Some(155),
        (22, 0x3fffd9) => Some(156),
        (23, 0x7fffe6) => Some(157),
        (23, 0x7fffe7) => Some(158),
        (24, 0xffffef) => Some(159),
        (22, 0x3fffda) => Some(160),
        (21, 0x1fffdd) => Some(161),
        (20, 0xfffe9) => Some(162),
        (22, 0x3fffdb) => Some(163),
        (22, 0x3fffdc) => Some(164),
        (23, 0x7fffe8) => Some(165),
        (23, 0x7fffe9) => Some(166),
        (21, 0x1fffde) => Some(167),
        (23, 0x7fffea) => Some(168),
        (22, 0x3fffdd) => Some(169),
        (22, 0x3fffde) => Some(170),
        (24, 0xfffff0) => Some(171),
        (21, 0x1fffdf) => Some(172),
        (22, 0x3fffdf) => Some(173),
        (23, 0x7fffeb) => Some(174),
        (23, 0x7fffec) => Some(175),
        (21, 0x1fffe0) => Some(176),
        (21, 0x1fffe1) => Some(177),
        (22, 0x3fffe0) => Some(178),
        (21, 0x1fffe2) => Some(179),
        (23, 0x7fffed) => Some(180),
        (22, 0x3fffe1) => Some(181),
        (23, 0x7fffee) => Some(182),
        (23, 0x7fffef) => Some(183),
        (20, 0xfffea) => Some(184),
        (22, 0x3fffe2) => Some(185),
        (22, 0x3fffe3) => Some(186),
        (22, 0x3fffe4) => Some(187),
        (23, 0x7ffff0) => Some(188),
        (22, 0x3fffe5) => Some(189),
        (22, 0x3fffe6) => Some(190),
        (23, 0x7ffff1) => Some(191),
        (26, 0x3ffffe0) => Some(192),
        (26, 0x3ffffe1) => Some(193),
        (20, 0xfffeb) => Some(194),
        (19, 0x7fff1) => Some(195),
        (22, 0x3fffe7) => Some(196),
        (23, 0x7ffff2) => Some(197),
        (22, 0x3fffe8) => Some(198),
        (25, 0x1ffffec) => Some(199),
        (26, 0x3ffffe2) => Some(200),
        (26, 0x3ffffe3) => Some(201),
        (26, 0x3ffffe4) => Some(202),
        (27, 0x7ffffde) => Some(203),
        (27, 0x7ffffdf) => Some(204),
        (26, 0x3ffffe5) => Some(205),
        (24, 0xfffff1) => Some(206),
        (25, 0x1ffffed) => Some(207),
        (19, 0x7fff2) => Some(208),
        (21, 0x1fffe3) => Some(209),
        (26, 0x3ffffe6) => Some(210),
        (27, 0x7ffffe0) => Some(211),
        (27, 0x7ffffe1) => Some(212),
        (26, 0x3ffffe7) => Some(213),
        (27, 0x7ffffe2) => Some(214),
        (24, 0xfffff2) => Some(215),
        (21, 0x1fffe4) => Some(216),
        (21, 0x1fffe5) => Some(217),
        (26, 0x3ffffe8) => Some(218),
        (26, 0x3ffffe9) => Some(219),
        (28, 0xffffffd) => Some(220),
        (27, 0x7ffffe3) => Some(221),
        (27, 0x7ffffe4) => Some(222),
        (27, 0x7ffffe5) => Some(223),
        (20, 0xfffec) => Some(224),
        (24, 0xfffff3) => Some(225),
        (20, 0xfffed) => Some(226),
        (21, 0x1fffe6) => Some(227),
        (22, 0x3fffe9) => Some(228),
        (21, 0x1fffe7) => Some(229),
        (21, 0x1fffe8) => Some(230),
        (23, 0x7ffff3) => Some(231),
        (22, 0x3fffea) => Some(232),
        (22, 0x3fffeb) => Some(233),
        (25, 0x1ffffee) => Some(234),
        (25, 0x1ffffef) => Some(235),
        (24, 0xfffff4) => Some(236),
        (24, 0xfffff5) => Some(237),
        (26, 0x3ffffea) => Some(238),
        (23, 0x7ffff4) => Some(239),
        (26, 0x3ffffeb) => Some(240),
        (27, 0x7ffffe6) => Some(241),
        (26, 0x3ffffec) => Some(242),
        (26, 0x3ffffed) => Some(243),
        (27, 0x7ffffe7) => Some(244),
        (27, 0x7ffffe8) => Some(245),
        (27, 0x7ffffe9) => Some(246),
        (27, 0x7ffffea) => Some(247),
        (27, 0x7ffffeb) => Some(248),
        (28, 0xffffffe) => Some(249),
        (27, 0x7ffffec) => Some(250),
        (27, 0x7ffffed) => Some(251),
        (27, 0x7ffffee) => Some(252),
        (27, 0x7ffffef) => Some(253),
        (27, 0x7fffff0) => Some(254),
        (26, 0x3ffffee) => Some(255),
        (30, 0x3fffffff) => Some(256),
        _ => None,
    }
}

proof fn lemma_code_facts_0(s: u16)
    requires
        0 <= s < 32,
    ensures
        5 <= spec_huff_len(s) <= 30,
        spec_huff_first(spec_huff_len(s) as nat) <= spec_huff_code(s),
        spec_huff_code(s) < spec_huff_first(spec_huff_len(s) as nat) + spec_huff_count(spec_huff_len(s) as nat),
        spec_huff_sym(spec_huff_len(s), spec_huff_code(s)) == Some(s),
{
    if s == 0 {} else if s == 1 {} else if s == 2 {} else if s == 3 {} else if s == 4 {} else if s == 5 {} else if s == 6 {} else if s == 7 {} else if s == 8 {} else if s == 9 {} else if s == 10 {} else if s == 11 {} else if s == 12 {} else if s == 13 {} else if s == 14 {} else if s == 15 {} else if s == 16 {} else if s == 17 {} else if s == 18 {} else if s == 19 {} else if s == 20 {} else if s == 21 {} else if s == 22 {} else if s == 23 {} else if s == 24 {} else if s == 25 {} else if s == 26 {} else if s == 27 {} else if s == 28 {} else if s == 29 {} else if s == 30 {} else if s == 31 {}
}

proof fn lemma_code_facts_1(s: u16)
    requires
        32 <= s < 64,
    ensures
        5 <= spec_huff_len(s) <= 30,
        spec_huff_first(spec_huff_len(s) as nat) <= spec_huff_code(s),
        spec_huff_code(s) < spec_huff_first(spec_huff_len(s) as nat) + spec_huff_count(spec_huff_len(s) as nat),
        spec_huff_sym(spec_huff_len(s), spec_huff_code(s)) == Some(s),
{
    if s == 32 {} else if s == 33 {} else if s == 34 {} else if s == 35 {} else if s == 36 {} else if s == 37 {} else if s == 38 {} else if s == 39 {} else if s == 40 {} else if s == 41 {} else if s == 42 {} else if s == 43 {} else if s == 44 {} else if s == 45 {} else if s == 46 {} else if s == 47 {} else if s == 48 {} else if s == 49 {} else if s == 50 {} else if s == 51 {} else if s == 52 {} else if s == 53 {} else if s == 54 {} else if s == 55 {} else if s == 56 {} else if s == 57 {} else if s == 58 {} else if s == 59 {} else if s == 60 {} else if s == 61 {} else if s == 62 {} else if s == 63 {}
}

proof fn lemma_code_facts_2(s: u16)
    requires
        64 <= s < 96,
    ensures
        5 <= spec_huff_len(s) <= 30,
        spec_huff_first(spec_huff_len(s) as nat) <= spec_huff_code(s),
        spec_huff_code(s) < spec_huff_first(spec_huff_len(s) as nat) + spec_huff_count(spec_huff_len(s) as nat),
        spec_huff_sym(spec_huff_len(s), spec_huff_code(s)) == Some(s),
{
    if s == 64 {} else if s == 65 {} else if s == 66 {} else if s == 67 {} else if s == 68 {} else if s == 69 {} else if s == 70 {} else if s == 71 {} else if s == 72 {} else if s == 73 {} else if s == 74 {} else if s == 75 {} else if s == 76 {} else if s == 77 {} else if s == 78 {} else if s == 79 {} else if s == 80 {} else if s == 81 {} else if s == 82 {} else if s == 83 {} else if s == 84 {} else if s == 85 {} else if s == 86 {} else if s == 87 {} else if s == 88 {} else if s == 89 {} else if s == 90 {} else if s == 91 {} else if s == 92 {} else if s == 93 {} else if s == 94 {} else if s == 95 {}
}

proof fn lemma_code_facts_3(s: u16)
    requires
        96 <= s < 128,
    ensures
        5 <= spec_huff_len(s) <= 30,
        spec_huff_first(spec_huff_len(s) as nat) <= spec_huff_code(s),
        spec_huff_code(s) < spec_huff_first(spec_huff_len(s) as nat) + spec_huff_count(spec_huff_len(s) as nat),
        spec_huff_sym(spec_huff_len(s), spec_huff_code(s)) == Some(s),
{
    if s == 96 {} else if s == 97 {} else if s == 98 {} else if s == 99 {} else if s == 100 {} else if s == 101 {} else if s == 102 {} else if s == 103 {} else if s == 104 {} else if s == 105 {} else if s == 106 {} else if s == 107 {} else if s == 108 {} else if s == 109 {} else if s == 110 {} else if s == 111 {} else if s == 112 {} else if s == 113 {} else if s == 114 {} else if s == 115 {} else if s == 116 {} else if s == 117 {} else if s == 118 {} else if s == 119 {} else if s == 120 {} else if s == 121 {} else if s == 122 {} else if s == 123 {} else if s == 124 {} else if s == 125 {} else if s == 126 {} else if s == 127 {}
}

proof fn lemma_code_facts_4(s: u16)
    requires
        128 <= s < 160,
    ensures
        5 <= spec_huff_len(s) <= 30,
        spec_huff_first(spec_huff_len(s) as nat) <= spec_huff_code(s),
        spec_huff_code(s) < spec_huff_first(spec_huff_len(s) as nat) + spec_huff_count(spec_huff_len(s) as nat),
        spec_huff_sym(spec_huff_len(s), spec_huff_code(s)) == Some(s),
{
    if s == 128 {} else if s == 129 {} else if s == 130 {} else if s == 131 {} else if s == 132 {} else if s == 133 {} else if s == 134 {} else if s == 135 {} else if s == 136 {} else if s == 137 {} else if s == 138 {} else if s == 139 {} else if s == 140 {} else if s == 141 {} else if s == 142 {} else if s == 143 {} else if s == 144 {} else if s == 145 {} else if s == 146 {} else if s == 147 {} else if s == 148 {} else if s == 149 {} else if s == 150 {} else if s == 151 {} else if s == 152 {} else if s == 153 {} else if s == 154 {} else if s == 155 {} else if s == 156 {} else if s == 157 {} else if s == 158 {} else if s == 159 {}
}

proof fn lemma_code_facts_5(s: u16)
    requires
        160 <= s < 192,
    ensures
        5 <= spec_huff_len(s) <= 30,
        spec_huff_first(spec_huff_len(s) as nat) <= spec_huff_code(s),
        spec_huff_code(s) < spec_huff_first(spec_huff_len(s) as nat) + spec_huff_count(spec_huff_len(s) as nat),
        spec_huff_sym(spec_huff_len(s), spec_huff_code(s)) == Some(s),
{
    if s == 160 {} else if s == 161 {} else if s == 162 {} else if s == 163 {} else if s == 164 {} else if s == 165 {} else if s == 166 {} else if s == 167 {} else if s == 168 {} else if s == 169 {} else if s == 170 {} else if s == 171 {} else if s == 172 {} else if s == 173 {} else if s == 174 {} else if s == 175 {} else if s == 176 {} else if s == 177 {} else if s == 178 {} else if s == 179 {} else if s == 180 {} else if s == 181 {} else if s == 182 {} else if s == 183 {} else if s == 184 {} else if s == 185 {} else if s == 186 {} else if s == 187 {} else if s == 188 {} else if s == 189 {} else if s == 190 {} else if s == 191 {}
}

proof fn lemma_code_facts_6(s: u16)
    requires
        192 <= s < 224,
    ensures
        5 <= spec_huff_len(s) <= 30,
        spec_huff_first(spec_huff_len(s) as nat) <= spec_huff_code(s),
        spec_huff_code(s) < spec_huff_first(spec_huff_len(s) as nat) + spec_huff_count(spec_huff_len(s) as nat),
        spec_huff_sym(spec_huff_len(s), spec_huff_code(s)) == Some(s),
{
    if s == 192 {} else if s == 193 {} else if s == 194 {} else if s == 195 {} else if s == 196 {} else if s == 197 {} else if s == 198 {} else if s == 199 {} else if s == 200 {} else if s == 201 {} else if s == 202 {} else if s == 203 {} else if s == 204 {} else if s == 205 {} else if s == 206 {} else if s == 207 {} else if s == 208 {} else if s == 209 {} else if s == 210 {} else if s == 211 {} else if s == 212 {} else if s == 213 {} else if s == 214 {} else if s == 215 {} else if s == 216 {} else if s == 217 {} else if s == 218 {} else if s == 219 {} else if s == 220 {} else if s == 221 {} else if s == 222 {} else if s == 223 {}
}

proof fn lemma_code_facts_7(s: u16)
    requires
        224 <= s < 256,
    ensures
        5 <= spec_huff_len(s) <= 30,
        spec_huff_first(spec_huff_len(s) as nat) <= spec_huff_code(s),
        spec_huff_code(s) < spec_huff_first(spec_huff_len(s) as nat) + spec_huff_count(spec_huff_len(s) as nat),
        spec_huff_sym(spec_huff_len(s), spec_huff_code(s)) == Some(s),
{
    if s == 224 {} else if s == 225 {} else if s == 226 {} else if s == 227 {} else if s == 228 {} else if s == 229 {} else if s == 230 {} else if s == 231 {} else if s == 232 {} else if s == 233 {} else if s == 234 {} else if s == 235 {} else if s == 236 {} else if s == 237 {} else if s == 238 {} else if s == 239 {} else if s == 240 {} else if s == 241 {} else if s == 242 {} else if s == 243 {} else if s == 244 {} else if s == 245 {} else if s == 246 {} else if s == 247 {} else if s == 248 {} else if s == 249 {} else if s == 250 {} else if s == 251 {} else if s == 252 {} else if s == 253 {} else if s == 254 {} else if s == 255 {}
}

proof fn lemma_code_facts_8(s: u16)
    requires
        256 <= s < 257,
    ensures
        5 <= spec_huff_len(s) <= 30,
        spec_huff_first(spec_huff_len(s) as nat) <= spec_huff_code(s),
        spec_huff_code(s) < spec_huff_first(spec_huff_len(s) as nat) + spec_huff_count(spec_huff_len(s) as nat),
        spec_huff_sym(spec_huff_len(s), spec_huff_code(s)) == Some(s),
{
    if s == 256 {}
}

proof fn lemma_sym_facts(l: u8, x: u32)
    requires
        spec_huff_sym(l, x) is Some,
    ensures
        spec_huff_sym(l, x)->Some_0 <= 256,
        spec_huff_code(spec_huff_sym(l, x)->Some_0) == x,
        spec_huff_len(spec_huff_sym(l, x)->Some_0) == l,
        spec_huff_first(l as nat) <= x < spec_huff_first(l as nat) + spec_huff_count(l as nat),
{
}


/// Every code value in the range of a length is the code of a symbol.
proof fn lemma_sym_complete(l: u8, x: u32)
    requires
        spec_huff_first(l as nat) <= x < spec_huff_first(l as nat) + spec_huff_count(l as nat),
    ensures
        spec_huff_sym(l, x) is Some,
{
    if l == 5 {
        if x == 0 {} else if x == 1 {} else if x == 2 {} else if x == 3 {} else if x == 4 {} else if x == 5 {} else if x == 6 {} else if x == 7 {} else if x == 8 {} else if x == 9 {}
    } else if l == 6 {
        if x == 20 {} else if x == 21 {} else if x == 22 {} else if x == 23 {} else if x == 24 {} else if x == 25 {} else if x == 26 {} else if x == 27 {} else if x == 28 {} else if x == 29 {} else if x == 30 {} else if x == 31 {} else if x == 32 {} else if x == 33 {} else if x == 34 {} else if x == 35 {} else if x == 36 {} else if x == 37 {} else if x == 38 {} else if x == 39 {} else if x == 40 {} else if x == 41 {} else if x == 42 {} else if x == 43 {} else if x == 44 {} else if x == 45 {}
    } else if l == 7 {
        if x == 92 {} else if x == 93 {} else if x == 94 {} else if x == 95 {} else if x == 96 {} else if x == 97 {} else if x == 98 {} else if x == 99 {} else if x == 100 {} else if x == 101 {} else if x == 102 {} else if x == 103 {} else if x == 104 {} else if x == 105 {} else if x == 106 {} else if x == 107 {} else if x == 108 {} else if x == 109 {} else if x == 110 {} else if x == 111 {} else if x == 112 {} else if x == 113 {} else if x == 114 {} else if x == 115 {} else if x == 116 {} else if x == 117 {} else if x == 118 {} else if x == 119 {} else if x == 120 {} else if x == 121 {} else if x == 122 {} else if x == 123 {}
    } else if l == 8 {
        if x == 248 {} else if x == 249 {} else if x == 250 {} else if x == 251 {} else if x == 252 {} else if x == 253 {}
    } else if l == 10 {
        if x == 1016 {} else if x == 1017 {} else if x == 1018 {} else if x == 1019 {} else if x == 1020 {}
    } else if l == 11 {
        if x == 2042 {} else if x == 2043 {} else if x == 2044 {}
    } else if l == 12 {
        if x == 4090 {} else if x == 4091 {}
    } else if l == 13 {
        if x == 8184 {} else if x == 8185 {} else if x == 8186 {} else if x == 8187 {} else if x == 8188 {} else if x == 8189 {}
    } else if l == 14 {
        if x == 16380 {} else if x == 16381 {}
    } else if l == 15 {
        if x == 32764 {} else if x == 32765 {} else if x == 32766 {}
    } else if l == 19 {
        if x == 524272 {} else if x == 524273 {} else if x == 524274 {}
    } else if l == 20 {
        if x == 1048550 {} else if x == 1048551 {} else if x == 1048552 {} else if x == 1048553 {} else if x == 1048554 {} else if x == 1048555 {} else if x == 1048556 {} else if x == 1048557 {}
    } else if l == 21 {
        if x == 2097116 {} else if x == 2097117 {} else if x == 2097118 {} else if x == 2097119 {} else if x == 2097120 {} else if x == 2097121 {} else if x == 2097122 {} else if x == 2097123 {} else if x == 2097124 {} else if x == 2097125 {} else if x == 2097126 {} else if x == 2097127 {} else if x == 2097128 {}
    } else if l == 22 {
        if x == 4194258 {} else if x == 4194259 {} else if x == 4194260 {} else if x == 4194261 {} else if x == 4194262 {} else if x == 4194263 {} else if x == 4194264 {} else if x == 4194265 {} else if x == 4194266 {} else if x == 4194267 {} else if x == 4194268 {} else if x == 4194269 {} else if x == 4194270 {} else if x == 4194271 {} else if x == 4194272 {} else if x == 4194273 {} else if x == 4194274 {} else if x == 4194275 {} else if x == 4194276 {} else if x == 4194277 {} else if x == 4194278 {} else if x == 4194279 {} else if x == 4194280 {} else if x == 4194281 {} else if x == 4194282 {} else if x == 4194283 {}
    } else if l == 23 {
        if x == 8388568 {} else if x == 8388569 {} else if x == 8388570 {} else if x == 8388571 {} else if x == 8388572 {} else if x == 8388573 {} else if x == 8388574 {} else if x == 8388575 {} else if x == 8388576 {} else if x == 8388577 {} else if x == 8388578 {} else if x == 8388579 {} else if x == 8388580 {} else if x == 8388581 {} else if x == 8388582 {} else if x == 8388583 {} else if x == 8388584 {} else if x == 8388585 {} else if x == 8388586 {} else if x == 8388587 {} else if x == 8388588 {} else if x == 8388589 {} else if x == 8388590 {} else if x == 8388591 {} else if x == 8388592 {} else if x == 8388593 {} else if x == 8388594 {} else if x == 8388595 {} else if x == 8388596 {}
    } else if l == 24 {
        if x == 16777194 {} else if x == 16777195 {} else if x == 16777196 {} else if x == 16777197 {} else if x == 16777198 {} else if x == 16777199 {} else if x == 16777200 {} else if x == 16777201 {} else if x == 16777202 {} else if x == 16777203 {} else if x == 16777204 {} else if x == 16777205 {}
    } else if l == 25 {
        if x == 33554412 {} else if x == 33554413 {} else if x == 33554414 {} else if x == 33554415 {}
    } else if l == 26 {
        if x == 67108832 {} else if x == 67108833 {} else if x == 67108834 {} else if x == 67108835 {} else if x == 67108836 {} else if x == 67108837 {} else if x == 67108838 {} else if x == 67108839 {} else if x == 67108840 {} else if x == 67108841 {} else if x == 67108842 {} else if x == 67108843 {} else if x == 67108844 {} else if x == 67108845 {} else if x == 67108846 {}
    } else if l == 27 {
        if x == 134217694 {} else if x == 134217695 {} else if x == 134217696 {} else if x == 134217697 {} else if x == 134217698 {} else if x == 134217699 {} else if x == 134217700 {} else if x == 134217701 {} else if x == 134217702 {} else if x == 134217703 {} else if x == 134217704 {} else if x == 134217705 {} else if x == 134217706 {} else if x == 134217707 {} else if x == 134217708 {} else if x == 134217709 {} else if x == 134217710 {} else if x == 134217711 {} else if x == 134217712 {}
    } else if l == 28 {
        if x == 268435426 {} else if x == 268435427 {} else if x == 268435428 {} else if x == 268435429 {} else if x == 268435430 {} else if x == 268435431 {} else if x == 268435432 {} else if x == 268435433 {} else if x == 268435434 {} else if x == 268435435 {} else if x == 268435436 {} else if x == 268435437 {} else if x == 268435438 {} else if x == 268435439 {} else if x == 268435440 {} else if x == 268435441 {} else if x == 268435442 {} else if x == 268435443 {} else if x == 268435444 {} else if x == 268435445 {} else if x == 268435446 {} else if x == 268435447 {} else if x == 268435448 {} else if x == 268435449 {} else if x == 268435450 {} else if x == 268435451 {} else if x == 268435452 {} else if x == 268435453 {} else if x == 268435454 {}
    } else if l == 30 {
        if x == 1073741820 {} else if x == 1073741821 {} else if x == 1073741822 {} else if x == 1073741823 {}
    }
}

/// The codes of `l` bits, for `l` up to 30, all lie below `2^l`.
proof fn lemma_range_fits(l: nat)
    requires
        l <= 30,
    ensures
        spec_huff_first(l) + spec_huff_count(l) <= pow2(l),
{
    lemma2_to64();
    if l == 0 {} else if l == 1 {} else if l == 2 {} else if l == 3 {} else if l == 4 {} else if l == 5 {} else if l == 6 {} else if l == 7 {} else if l == 8 {} else if l == 9 {} else if l == 10 {} else if l == 11 {} else if l == 12 {} else if l == 13 {} else if l == 14 {} else if l == 15 {} else if l == 16 {} else if l == 17 {} else if l == 18 {} else if l == 19 {} else if l == 20 {} else if l == 21 {} else if l == 22 {} else if l == 23 {} else if l == 24 {} else if l == 25 {} else if l == 26 {} else if l == 27 {} else if l == 28 {} else if l == 29 {} else {}
}

/// The first code of a length follows the codes one bit shorter.
proof fn lemma_first_next(l: nat)
    requires
        l < 30,
    ensures
        spec_huff_first(l + 1) == 2 * (spec_huff_first(l) + spec_huff_count(l)),
{
    if l == 0 {} else if l == 1 {} else if l == 2 {} else if l == 3 {} else if l == 4 {} else if l == 5 {} else if l == 6 {} else if l == 7 {} else if l == 8 {} else if l == 9 {} else if l == 10 {} else if l == 11 {} else if l == 12 {} else if l == 13 {} else if l == 14 {} else if l == 15 {} else if l == 16 {} else if l == 17 {} else if l == 18 {} else if l == 19 {} else if l == 20 {} else if l == 21 {} else if l == 22 {} else if l == 23 {} else if l == 24 {} else if l == 25 {} else if l == 26 {} else if l == 27 {} else if l == 28 {} else {}
}

/// The leading `l` bits of any code of `m > l` bits lie above the codes of
/// `l` bits (the code is prefix free).
proof fn lemma_first_prefix(l: nat, m: nat)
    requires
        l < m <= 30,
    ensures
        spec_huff_first(m) / pow2((m - l) as nat) >= spec_huff_first(l) + spec_huff_count(l),
    decreases m - l,
{
    lemma_first_next(l);
    lemma_pow2_unfold((m - l) as nat);
    lemma_pow2_pos((m - l - 1) as nat);
    let f = spec_huff_first(m) as int;
    lemma_div_denominator(f, pow2((m - l - 1) as nat) as int, 2);
    lemma_mul_is_commutative(2, pow2((m - l - 1) as nat) as int);
    if l + 1 == m {
        assert(pow2(0) == 1) by { lemma2_to64(); }
        assert(f / 1 == f);
    } else {
        lemma_first_prefix(l + 1, m);
        lemma_div_is_ordered(
            spec_huff_first(l + 1) as int,
            f / pow2((m - l - 1) as nat) as int,
            2,
        );
    }
}

/// The `n` bits of `x`, most significant first.
pub open spec fn spec_bits(x: nat, n: nat) -> Seq<bool> {
    Seq::new(n, |i: int| (x / pow2((n - 1 - i) as nat)) % 2 == 1)
}

/// The bits of the bytes `b`, each byte most significant bit first.
pub open spec fn spec_bytes_bits(b: Seq<u8>) -> Seq<bool> {
    Seq::new(8 * b.len(), |k: int| (b[k / 8] as nat / pow2((7 - k % 8) as nat)) % 2 == 1)
}

/// The codes of the bytes of `v`, one after the other.
pub open spec fn spec_code_bits(v: Seq<u8>) -> Seq<bool>
    decreases v.len(),
{
    if v.len() == 0 {
        Seq::empty()
    } else {
        let s = v.last() as u16;
        spec_code_bits(v.drop_last()) + spec_bits(spec_huff_code(s) as nat, spec_huff_len(s) as nat)
    }
}

/// The number whose bits, most significant first, are `bits`.
pub open spec fn spec_bits_value(bits: Seq<bool>) -> nat
    decreases bits.len(),
{
    if bits.len() == 0 {
        0
    } else {
        2 * spec_bits_value(bits.drop_last()) + if bits.last() { 1nat } else { 0nat }
    }
}

/// The bytes whose bits are `bits`, eight to a byte.
pub open spec fn spec_bits_bytes(bits: Seq<bool>) -> Seq<u8> {
    Seq::new(bits.len() / 8, |i: int| spec_bits_value(bits.subrange(8 * i, 8 * i + 8)) as u8)
}

/// How many one bits fill `n` bits up to whole bytes.
pub open spec fn spec_pad_len(n: nat) -> nat {
    ((8 - n % 8) % 8) as nat
}

/// The Huffman encoding of `v`, as bits: the codes of its bytes, then one
/// bits up to a whole byte.
pub open spec fn spec_huffman_bits(v: Seq<u8>) -> Seq<bool> {
    let c = spec_code_bits(v);
    c + Seq::new(spec_pad_len(c.len()), |i: int| true)
}

/// The Huffman encoding of `v`: the codes of its bytes one after the other,
/// filled up with one bits to whole bytes.
pub open spec fn spec_huffman_encode(v: Seq<u8>) -> Seq<u8> {
    spec_bits_bytes(spec_huffman_bits(v))
}

/// Splitting a number at bit `k`: above it, the high part shifted.
proof fn lemma_div_high(hi: nat, lo: nat, k: nat, e: nat)
    requires
        lo < pow2(k),
        k <= e,
    ensures
        (hi * pow2(k) + lo) / pow2(e) == hi / pow2((e - k) as nat),
{
    lemma_pow2_pos(k);
    lemma_pow2_pos((e - k) as nat);
    lemma_pow2_adds(k, (e - k) as nat);
    let x = hi * pow2(k) + lo;
    lemma_fundamental_div_mod_converse_div(x as int, pow2(k) as int, hi as int, lo as int);
    lemma_div_denominator(x as int, pow2(k) as int, pow2((e - k) as nat) as int);
}

/// Splitting a number at bit `k`: below it, the bits of the low part.
proof fn lemma_div_low(hi: nat, lo: nat, k: nat, e: nat)
    requires
        lo < pow2(k),
        e < k,
    ensures
        ((hi * pow2(k) + lo) / pow2(e)) % 2 == (lo / pow2(e)) % 2,
{
    let d = (k - e - 1) as nat;
    lemma_pow2_pos(e);
    lemma_pow2_pos(d);
    lemma_pow2_adds(e, (k - e) as nat);
    lemma_pow2_unfold((k - e) as nat);
    let h = hi as int;
    let w = lo as int;
    let pe = pow2(e) as int;
    let pd = pow2(d) as int;
    let pk = pow2(k) as int;
    assert(pk == pe * (2 * pd));
    let a = w / pe;
    let r = w % pe;
    lemma_fundamental_div_mod(w, pe);
    vstd::arithmetic::div_mod::lemma_mod_pos_bound(w, pe);
    let q = h * (2 * pd) + a;
    assert(h * pk + w == q * pe + r) by (nonlinear_arith)
        requires
            pk == pe * (2 * pd),
            q == h * (2 * pd) + a,
            w == pe * a + r,
    ;
    lemma_fundamental_div_mod_converse_div(h * pk + w, pe, q, r);
    assert(h * (2 * pd) == 2 * (h * pd)) by (nonlinear_arith);
    lemma_mod_multiples_vanish(h * pd, a, 2);
}

/// The bits of a number made of a high and a low part are the bits of the
/// parts, one after the other.
proof fn lemma_bits_concat(hi: nat, m: nat, lo: nat, k: nat)
    requires
        hi < pow2(m),
        lo < pow2(k),
    ensures
        spec_bits(hi * pow2(k) + lo, m + k) == spec_bits(hi, m) + spec_bits(lo, k),
{
    let x = hi * pow2(k) + lo;
    assert forall|i: int| 0 <= i < m + k implies #[trigger] spec_bits(x, m + k)[i] == (spec_bits(hi, m)
        + spec_bits(lo, k))[i] by {
        let e = (m + k - 1 - i) as nat;
        if i < m {
            lemma_div_high(hi, lo, k, e);
            assert((e - k) as nat == (m - 1 - i) as nat);
        } else {
            lemma_div_low(hi, lo, k, e);
            assert(e == (k - 1 - (i - m)) as nat);
        }
    }
    assert(spec_bits(x, m + k) =~= spec_bits(hi, m) + spec_bits(lo, k));
}

/// The bits of `2^p - 1` are all ones.
proof fn lemma_bits_ones(p: nat)
    ensures
        pow2(p) >= 1,
        spec_bits((pow2(p) - 1) as nat, p) == Seq::new(p, |i: int| true),
{
    lemma_pow2_pos(p);
    assert forall|i: int| 0 <= i < p implies #[trigger] spec_bits((pow2(p) - 1) as nat, p)[i] by {
        let e = (p - 1 - i) as nat;
        let t = (p - e) as nat;
        lemma_pow2_pos(e);
        lemma_pow2_adds(t, e);
        lemma_pow2_unfold(t);
        lemma_pow2_pos((t - 1) as nat);
        let pe = pow2(e) as int;
        let q = pow2(t) - 1;
        assert(pow2(p) - 1 == q * pe + (pe - 1)) by (nonlinear_arith)
            requires
                pow2(p) == pow2(t) * pe,
                q == pow2(t) - 1,
        ;
        lemma_fundamental_div_mod_converse_div(pow2(p) - 1, pe, q as int, pe - 1);
    }
    assert(spec_bits((pow2(p) - 1) as nat, p) =~= Seq::new(p, |i: int| true));
}

/// The bits of bytes with one more byte.
proof fn lemma_bytes_bits_push(s: Seq<u8>, b: u8)
    ensures
        spec_bytes_bits(s.push(b)) == spec_bytes_bits(s) + spec_bits(b as nat, 8),
{
    let n = s.len();
    assert forall|k: int| 0 <= k < 8 * (n + 1) implies #[trigger] spec_bytes_bits(s.push(b))[k] == (
    spec_bytes_bits(s) + spec_bits(b as nat, 8))[k] by {
        if k < 8 * n {
            assert(k / 8 < n);
        } else {
            let t = k - 8 * n;
            assert(k / 8 == n && k % 8 == t);
        }
    }
    assert(spec_bytes_bits(s.push(b)) =~= spec_bytes_bits(s) + spec_bits(b as nat, 8));
}

/// The bits of two pieces of bytes are the bits of each, one after the other.
pub proof fn lemma_bytes_bits_concat(a: Seq<u8>, b: Seq<u8>)
    ensures
        spec_bytes_bits(a + b) == spec_bytes_bits(a) + spec_bytes_bits(b),
{
    assert forall|k: int| 0 <= k < 8 * (a.len() + b.len()) implies #[trigger] spec_bytes_bits(a + b)[k] == (
    spec_bytes_bits(a) + spec_bytes_bits(b))[k] by {
        if k < 8 * a.len() {
            assert(k / 8 < a.len());
        } else {
            let t = k - 8 * a.len();
            assert(k / 8 == a.len() + t / 8 && k % 8 == t % 8);
        }
    }
    assert(spec_bytes_bits(a + b) =~= spec_bytes_bits(a) + spec_bytes_bits(b));
}

/// Facts of the code of any symbol.
proof fn lemma_code_facts(s: u16)
    requires
        s <= 256,
    ensures
        5 <= spec_huff_len(s) <= 30,
        spec_huff_first(spec_huff_len(s) as nat) <= spec_huff_code(s),
        spec_huff_code(s) < spec_huff_first(spec_huff_len(s) as nat) + spec_huff_count(spec_huff_len(s) as nat),
        spec_huff_code(s) < pow2(spec_huff_len(s) as nat),
        spec_huff_sym(spec_huff_len(s), spec_huff_code(s)) == Some(s),
{
    if s < 32 {
        lemma_code_facts_0(s);
    } else if s < 64 {
        lemma_code_facts_1(s);
    } else if s < 96 {
        lemma_code_facts_2(s);
    } else if s < 128 {
        lemma_code_facts_3(s);
    } else if s < 160 {
        lemma_code_facts_4(s);
    } else if s < 192 {
        lemma_code_facts_5(s);
    } else if s < 224 {
        lemma_code_facts_6(s);
    } else if s < 256 {
        lemma_code_facts_7(s);
    } else {
        lemma_code_facts_8(s);
    }
    lemma_range_fits(spec_huff_len(s) as nat);
}

/// `2^e` as a machine integer.
fn pow2_u64(e: u64) -> (r: u64)
    requires
        e < 64,
    ensures
        r == pow2(e as nat),
{
    proof {
        vstd::bits::lemma_u64_pow2_no_overflow(e as nat);
        vstd::bits::lemma_u64_shl_is_mul(1, e);
    }
    1u64 << e
}

/// Huffman-codes `value`: the codes of its bytes one after the other, the
/// last byte filled up with one bits.
pub fn encode(value: &[u8]) -> (r: Vec<u8>)
    ensures
        r@ == spec_huffman_encode(value@),
        spec_bytes_bits(r@) == spec_huffman_bits(value@),
{
    let mut out: Vec<u8> = Vec::new();
    let mut acc: u64 = 0;
    let mut nbits: u64 = 0;
    let mut i: usize = 0;
    proof {
        lemma2_to64();
        assert(spec_bits(0, 0) =~= Seq::<bool>::empty());
        assert(value@.take(0) =~= Seq::<u8>::empty());
        assert(spec_bytes_bits(out@) =~= Seq::<bool>::empty());
    }
    while i < value.len()
        invariant
            i <= value@.len(),
            nbits < 8,
            acc < pow2(nbits as nat),
            spec_bytes_bits(out@) + spec_bits(acc as nat, nbits as nat) == spec_code_bits(value@.take(i as int)),
        decreases value.len() - i,
    {
        let b = value[i];
        let (code, len) = huff_code(b);
        let ghost acc0 = acc;
        let ghost n0 = nbits;
        proof {
            lemma_code_facts(b as u16);
            let t = value@.take(i + 1);
            assert(t.drop_last() =~= value@.take(i as int));
            assert(t.last() == b);
            lemma2_to64();
            vstd::arithmetic::power2::lemma_pow2_strictly_increases(nbits as nat, 8);
            vstd::arithmetic::power2::lemma_pow2_strictly_increases(len as nat, 31);
            vstd::arithmetic::power2::lemma_pow2_adds(nbits as nat, len as nat);
        }
        let p = pow2_u64(len as u64);
        proof {
            assert(acc * p + code < pow2(nbits as nat) * p) by (nonlinear_arith)
                requires
                    acc < pow2(nbits as nat),
                    code < p,
            ;
            assert(pow2(nbits as nat) * p < 0x1_0000_0000_0000) by (nonlinear_arith)
                requires
                    pow2(nbits as nat) < 256,
                    p < 0x8000_0000,
            ;
        }
        acc = acc * p + code as u64;
        nbits = nbits + len as u64;
        proof {
            lemma_bits_concat(acc0 as nat, n0 as nat, code as nat, len as nat);
            assert(spec_bytes_bits(out@) + spec_bits(acc as nat, nbits as nat) =~= spec_code_bits(
                value@.take(i + 1),
            ));
        }
        while nbits >= 8
            invariant
                i < value@.len(),
                nbits < 38,
                acc < pow2(nbits as nat),
                spec_bytes_bits(out@) + spec_bits(acc as nat, nbits as nat) == spec_code_bits(
                    value@.take(i + 1),
                ),
            decreases nbits,
        {
            let k = nbits - 8;
            let pk = pow2_u64(k);
            proof {
                lemma_pow2_pos(k as nat);
            }
            let hi = acc / pk;
            let lo = acc % pk;
            proof {
                lemma_pow2_pos(k as nat);
                lemma_pow2_adds(k as nat, 8);
                lemma2_to64();
                lemma_fundamental_div_mod(acc as int, pk as int);
                vstd::arithmetic::div_mod::lemma_mod_pos_bound(acc as int, pk as int);
                assert(hi < 256) by (nonlinear_arith)
                    requires
                        acc < pk * 256,
                        acc == pk * hi + lo,
                        0 <= lo,
                        pk > 0,
                ;
                lemma_mul_is_commutative(pk as int, hi as int);
                lemma_bits_concat(hi as nat, 8, lo as nat, k as nat);
                lemma_bytes_bits_push(out@, hi as u8);
            }
            out.push(hi as u8);
            acc = lo;
            nbits = k;
            proof {
                assert(spec_bytes_bits(out@) + spec_bits(acc as nat, nbits as nat) =~= spec_code_bits(
                    value@.take(i + 1),
                ));
            }
        }
        i = i + 1;
    }
    let ghost c = spec_code_bits(value@);
    proof {
        assert(value@.take(value@.len() as int) =~= value@);
        vstd::arithmetic::div_mod::lemma_fundamental_div_mod_converse(
            c.len() as int,
            8,
            out@.len() as int,
            nbits as int,
        );
    }
    if nbits > 0 {
        let pad = 8 - nbits;
        let pp = pow2_u64(pad);
        proof {
            lemma_bits_ones(pad as nat);
            lemma_pow2_adds(nbits as nat, pad as nat);
            lemma2_to64();
            lemma_bits_concat(acc as nat, nbits as nat, (pp - 1) as nat, pad as nat);
            assert(acc * pp + (pp - 1) < 256) by (nonlinear_arith)
                requires
                    acc < pow2(nbits as nat),
                    pow2(nbits as nat) * pp == 256,
                    pp >= 1,
            ;
            lemma_bytes_bits_push(out@, (acc * pp + (pp - 1)) as u8);
        }
        let byte = acc * pp + (pp - 1);
        out.push(byte as u8);
        proof {
            assert(spec_bytes_bits(out@) =~= spec_huffman_bits(value@));
        }
    } else {
        proof {
            assert(spec_bytes_bits(out@) =~= spec_huffman_bits(value@));
        }
    }
    proof {
        lemma_bytes_of_bits(out@);
    }
    out
}

/// Why Huffman-coded bytes could not be decoded.
#[derive(Debug, PartialEq, Eq, Clone, Copy)]
pub enum HuffmanDecodingError {
    /// The bits after the last code are not a run of fewer than eight one
    /// bits.
    InvalidPadding,
    /// The end-of-string code stands among the codes.
    EndOfString,
}

/// Where a decoder stands: the bits `x` (`l` of them) of the code read so
/// far, the bytes decoded, and the first error met.
pub ghost struct HuffmanState {
    pub x: nat,
    pub l: nat,
    pub out: Seq<u8>,
    pub err: Option<HuffmanDecodingError>,
}

impl HuffmanState {
    /// A decoder at the start of a code, having decoded `out`.
    pub open spec fn start(out: Seq<u8>) -> Self {
        HuffmanState { x: 0, l: 0, out, err: None }
    }

    /// The partial code has fewer bits than the longest code, and lies above
    /// the codes of its length (none of which it is).
    pub open spec fn wf(self) -> bool {
        &&& self.l <= 30
        &&& self.x < pow2(self.l)
        &&& spec_huff_first(self.l) + spec_huff_count(self.l) <= self.x
    }

    /// Reading one more bit.
    pub open spec fn step(self, bit: bool) -> Self {
        if self.err is Some {
            self
        } else {
            let x = 2 * self.x + if bit { 1nat } else { 0nat };
            let l = self.l + 1;
            match spec_huff_sym(l as u8, x as u32) {
                Some(s) => if s == 256 {
                    HuffmanState { x: self.x, l: self.l, out: self.out, err: Some(HuffmanDecodingError::EndOfString) }
                } else {
                    HuffmanState::start(self.out.push(s as u8))
                },
                None => HuffmanState { x, l, out: self.out, err: None },
            }
        }
    }

    /// Reading the bits `bits`, first to last.
    pub open spec fn run(self, bits: Seq<bool>) -> Self
        decreases bits.len(),
    {
        if bits.len() == 0 {
            self
        } else {
            self.run(bits.drop_last()).step(bits.last())
        }
    }

    /// The outcome once every bit is read: the bytes decoded, if no error
    /// came up and what is left of a code is fewer than eight one bits.
    pub open spec fn finish(self) -> Result<Seq<u8>, HuffmanDecodingError> {
        match self.err {
            Some(e) => Err(e),
            None => if self.l < 8 && self.x + 1 == pow2(self.l) {
                Ok(self.out)
            } else {
                Err(HuffmanDecodingError::InvalidPadding)
            },
        }
    }
}

/// Decoding the Huffman-coded bytes `b`.
pub open spec fn spec_huffman_decode(b: Seq<u8>) -> Result<Seq<u8>, HuffmanDecodingError> {
    HuffmanState::start(Seq::empty()).run(spec_bytes_bits(b)).finish()
}

/// Reading bits in two pieces is reading them at once.
pub proof fn lemma_run_concat(st: HuffmanState, a: Seq<bool>, b: Seq<bool>)
    ensures
        st.run(a + b) == st.run(a).run(b),
    decreases b.len(),
{
    if b.len() == 0 {
        assert(a + b =~= a);
    } else {
        assert((a + b).drop_last() =~= a + b.drop_last());
        lemma_run_concat(st, a, b.drop_last());
    }
}

/// A well formed partial code has at most 29 bits: thirty bits always
/// make a code.
proof fn lemma_wf_short(st: HuffmanState)
    requires
        st.wf(),
    ensures
        st.l <= 29,
{
    lemma2_to64();
}

/// A step keeps the state well formed.
proof fn lemma_step_wf(st: HuffmanState, bit: bool)
    requires
        st.wf(),
    ensures
        st.step(bit).wf(),
{
    lemma_wf_short(st);
    lemma_pow2_unfold(st.l + 1);
    lemma_pow2_pos(0);
    lemma2_to64();
    if st.err is None {
        let x = 2 * st.x + if bit { 1nat } else { 0nat };
        let l = st.l + 1;
        lemma_first_next(st.l);
        if spec_huff_sym(l as u8, x as u32) is None {
            if spec_huff_first(l) <= x && x < spec_huff_first(l) + spec_huff_count(l) {
                lemma_sym_complete(l as u8, x as u32);
            }
        }
    }
}

/// Reading keeps the state well formed.
pub proof fn lemma_run_wf(st: HuffmanState, bits: Seq<bool>)
    requires
        st.wf(),
    ensures
        st.run(bits).wf(),
    decreases bits.len(),
{
    if bits.len() > 0 {
        lemma_run_wf(st, bits.drop_last());
        lemma_step_wf(st.run(bits.drop_last()), bits.last());
    }
}

/// The leading bits of a code are no code themselves.
proof fn lemma_prefix_not_code(s: u16, l: nat)
    requires
        s <= 256,
        l < spec_huff_len(s),
    ensures
        spec_huff_sym(l as u8, (spec_huff_code(s) as nat / pow2((spec_huff_len(s) - l) as nat)) as u32) is None,
{
    let n = spec_huff_len(s) as nat;
    let c = spec_huff_code(s) as nat;
    let y = c / pow2((n - l) as nat);
    lemma_code_facts(s);
    lemma_pow2_pos((n - l) as nat);
    vstd::arithmetic::div_mod::lemma_div_is_ordered_by_denominator(c as int, 1, pow2((n - l) as nat) as int);
    assert(c / 1 == c);
    if spec_huff_sym(l as u8, y as u32) is Some {
        lemma_sym_facts(l as u8, y as u32);
        lemma_first_prefix(l, n);
        lemma_div_is_ordered(spec_huff_first(n) as int, c as int, pow2((n - l) as nat) as int);
        assert(false);
    }
}

/// Reading the code of byte `s` bit by bit: a partial code until its last
/// bit, then the byte.
proof fn lemma_run_code_prefix(o: Seq<u8>, s: u16, j: nat)
    requires
        s < 256,
        j <= spec_huff_len(s),
    ensures
        ({
            let n = spec_huff_len(s) as nat;
            let c = spec_huff_code(s) as nat;
            HuffmanState::start(o).run(spec_bits(c, n).take(j as int)) == if j < n {
                HuffmanState { x: c / pow2((n - j) as nat), l: j, out: o, err: None }
            } else {
                HuffmanState::start(o.push(s as u8))
            }
        }),
    decreases j,
{
    let n = spec_huff_len(s) as nat;
    let c = spec_huff_code(s) as nat;
    let bits = spec_bits(c, n);
    lemma_code_facts(s);
    if j == 0 {
        assert(bits.take(0) =~= Seq::<bool>::empty());
        vstd::arithmetic::div_mod::lemma_basic_div(c as int, pow2(n) as int);
    } else {
        let i = (j - 1) as nat;
        lemma_run_code_prefix(o, s, i);
        assert(bits.take(j as int).drop_last() =~= bits.take(i as int));
        let e = (n - 1 - i) as nat;
        lemma_pow2_pos(e);
        lemma_pow2_unfold((n - i) as nat);
        assert((n - i) as nat == e + 1);
        let y = c / pow2(e);
        lemma_div_denominator(c as int, pow2(e) as int, 2);
        lemma_fundamental_div_mod(y as int, 2);
        let x2 = 2 * (c / pow2((n - i) as nat)) + if bits[i as int] { 1nat } else { 0nat };
        assert(x2 == y);
        vstd::arithmetic::div_mod::lemma_div_is_ordered_by_denominator(c as int, 1, pow2(e) as int);
        assert(c / 1 == c);
        if j < n {
            lemma_prefix_not_code(s, j);
        } else {
            assert(e == 0);
            lemma2_to64();
            assert(y == c);
        }
    }
}

/// Reading the codes of `v` decodes `v`.
proof fn lemma_run_codes(o: Seq<u8>, v: Seq<u8>)
    ensures
        HuffmanState::start(o).run(spec_code_bits(v)) == HuffmanState::start(o + v),
    decreases v.len(),
{
    if v.len() == 0 {
        assert(o + v =~= o);
    } else {
        let w = v.drop_last();
        let s = v.last() as u16;
        let n = spec_huff_len(s) as nat;
        let c = spec_huff_code(s) as nat;
        lemma_run_codes(o, w);
        lemma_run_concat(HuffmanState::start(o), spec_code_bits(w), spec_bits(c, n));
        lemma_run_code_prefix(o + w, s, n);
        assert(spec_bits(c, n).take(n as int) =~= spec_bits(c, n));
        assert((o + w).push(s as u8) =~= o + v);
    }
}

/// Reading up to seven one bits leaves them as a partial code.
proof fn lemma_run_padding(o: Seq<u8>, p: nat, j: nat)
    requires
        j <= p <= 7,
    ensures
        HuffmanState::start(o).run(Seq::new(p, |i: int| true).take(j as int)) == (HuffmanState {
            x: (pow2(j) - 1) as nat,
            l: j,
            out: o,
            err: None,
        }),
    decreases j,
{
    let ones = Seq::new(p, |i: int| true);
    lemma2_to64();
    if j == 0 {
        assert(ones.take(0) =~= Seq::<bool>::empty());
    } else {
        let i = (j - 1) as nat;
        lemma_run_padding(o, p, i);
        assert(ones.take(j as int).drop_last() =~= ones.take(i as int));
        let x = (pow2(j) - 1) as nat;
        if spec_huff_sym(j as u8, x as u32) is Some {
            lemma_sym_facts(j as u8, x as u32);
            if j == 1 {} else if j == 2 {} else if j == 3 {} else if j == 4 {} else if j == 5 {} else if j == 6 {} else {}
            assert(false);
        }
    }
}

/// Huffman-coded bytes decode to what was coded: bytes whose bits are the
/// codes of `v` filled up with one bits decode to `v`.
pub proof fn lemma_decode_encode(v: Seq<u8>, b: Seq<u8>)
    requires
        spec_bytes_bits(b) == spec_huffman_bits(v),
    ensures
        spec_huffman_decode(b) == Ok::<Seq<u8>, HuffmanDecodingError>(v),
{
    let c = spec_code_bits(v);
    let p = spec_pad_len(c.len());
    let ones = Seq::new(p, |i: int| true);
    let st = HuffmanState::start(Seq::empty());
    assert(spec_bytes_bits(b) =~= c + ones);
    lemma_run_concat(st, c, ones);
    lemma_run_codes(Seq::empty(), v);
    assert(Seq::<u8>::empty() + v =~= v);
    lemma_run_padding(v, p, p);
    assert(ones.take(p as int) =~= ones);
    assert(st.run(c) == HuffmanState::start(v));
    assert(st.run(c + ones) == HuffmanState::start(v).run(ones));
    assert(p < 8);
    lemma_pow2_pos(p);
    assert(st.run(spec_bytes_bits(b)).finish() == Ok::<Seq<u8>, HuffmanDecodingError>(v));
}

/// A Huffman decoder that can be fed bytes a piece at a time.
pub struct HuffmanDecoder {
    x: u32,
    l: u8,
    out: Vec<u8>,
    err: Option<HuffmanDecodingError>,
}

impl View for HuffmanDecoder {
    type V = HuffmanState;

    closed spec fn view(&self) -> HuffmanState {
        HuffmanState { x: self.x as nat, l: self.l as nat, out: self.out@, err: self.err }
    }
}

impl HuffmanDecoder {
    /// A decoder that has read nothing.
    pub fn new() -> (d: Self)
        ensures
            d@ == HuffmanState::start(Seq::empty()),
            d@.wf(),
    {
        proof {
            lemma2_to64();
        }
        HuffmanDecoder { x: 0, l: 0, out: Vec::new(), err: None }
    }

    fn step(&mut self, bit: bool)
        requires
            old(self)@.wf(),
        ensures
            final(self)@ == old(self)@.step(bit),
            final(self)@.wf(),
    {
        proof {
            lemma_step_wf(self@, bit);
        }
        if self.err.is_some() {
            return;
        }
        proof {
            lemma2_to64();
            lemma_wf_short(self@);
            vstd::arithmetic::power2::lemma_pow2_strictly_increases(self.l as nat, 30);
        }
        let x: u32 = 2 * self.x + if bit { 1u32 } else { 0u32 };
        let l: u8 = self.l + 1;
        match huff_sym(l, x) {
            Some(s) => {
                if s == 256 {
                    self.err = Some(HuffmanDecodingError::EndOfString);
                } else {
                    proof {
                        lemma_sym_facts(l, x);
                    }
                    self.out.push(s as u8);
                    self.x = 0;
                    self.l = 0;
                }
            },
            None => {
                self.x = x;
                self.l = l;
            },
        }
    }

    /// Feeds the bytes `buf[from..to]`.
    pub fn feed(&mut self, buf: &[u8], from: usize, to: usize)
        requires
            old(self)@.wf(),
            from <= to <= buf@.len(),
        ensures
            final(self)@.wf(),
            final(self)@ == old(self)@.run(spec_bytes_bits(buf@.subrange(from as int, to as int))),
    {
        let ghost st0 = self@;
        let mut i = from;
        proof {
            assert(spec_bytes_bits(buf@.subrange(from as int, from as int)) =~= Seq::<bool>::empty());
        }
        while i < to
            invariant
                from <= i <= to <= buf@.len(),
                self@.wf(),
                self@ == st0.run(spec_bytes_bits(buf@.subrange(from as int, i as int))),
            decreases to - i,
        {
            let b = buf[i];
            let ghost pre = spec_bytes_bits(buf@.subrange(from as int, i as int));
            let ghost bb = spec_bits(b as nat, 8);
            let mut j: u8 = 0;
            proof {
                assert(pre + bb.take(0) =~= pre);
            }
            while j < 8
                invariant
                    j <= 8,
                    bb == spec_bits(b as nat, 8),
                    self@.wf(),
                    self@ == st0.run(pre + bb.take(j as int)),
                decreases 8 - j,
            {
                let bit = (b >> (7 - j)) % 2 == 1;
                proof {
                    vstd::bits::lemma_u8_shr_is_div(b, (7 - j) as u8);
                    assert(bit == bb[j as int]);
                    assert((pre + bb.take(j + 1)).drop_last() =~= pre + bb.take(j as int));
                    assert((pre + bb.take(j + 1)).last() == bb[j as int]);
                }
                self.step(bit);
                j = j + 1;
            }
            proof {
                assert(bb.take(8) =~= bb);
                assert(buf@.subrange(from as int, i + 1) =~= buf@.subrange(from as int, i as int).push(b));
                lemma_bytes_bits_push(buf@.subrange(from as int, i as int), b);
            }
            i = i + 1;
        }
    }

    /// The outcome once every byte is fed: the decoded bytes, or why they
    /// could not be decoded.
    pub fn finish(self) -> (r: Result<Vec<u8>, HuffmanDecodingError>)
        requires
            self@.wf(),
        ensures
            match self@.finish() {
                Ok(v) => r matches Ok(w) && w@ == v,
                Err(e) => r == Err::<Vec<u8>, HuffmanDecodingError>(e),
            },
    {
        match self.err {
            Some(e) => Err(e),
            None => {
                if self.l < 8 && self.x as u64 + 1 == pow2_u64(self.l as u64) {
                    Ok(self.out)
                } else {
                    Err(HuffmanDecodingError::InvalidPadding)
                }
            },
        }
    }
}

/// Decodes the Huffman-coded bytes `b`.
pub fn decode(b: &[u8]) -> (r: Result<Vec<u8>, HuffmanDecodingError>)
    ensures
        match spec_huffman_decode(b@) {
            Ok(v) => r matches Ok(w) && w@ == v,
            Err(e) => r == Err::<Vec<u8>, HuffmanDecodingError>(e),
        },
{
    let mut d = HuffmanDecoder::new();
    d.feed(b, 0, b.len());
    proof {
        assert(b@.subrange(0, b@.len() as int) =~= b@);
    }
    d.finish()
}

/// A number's bits give the number back.
proof fn lemma_value_of_bits(x: nat, n: nat)
    requires
        x < pow2(n),
    ensures
        spec_bits_value(spec_bits(x, n)) == x,
    decreases n,
{
    if n == 0 {
        lemma2_to64();
    } else {
        let m = (n - 1) as nat;
        lemma_pow2_unfold(n);
        lemma2_to64();
        lemma_fundamental_div_mod(x as int, 2);
        let hi = x / 2;
        let lo = x % 2;
        assert(hi * pow2(1) + lo == x);
        lemma_bits_concat(hi, m, lo, 1);
        assert(m + 1 == n);
        let b = spec_bits(x, n);
        assert(b.drop_last() =~= spec_bits(hi, m));
        assert(b.last() == spec_bits(lo, 1)[0]);
        assert(lo / 1 == lo);
        assert(b.last() == (lo == 1));
        lemma_value_of_bits(hi, m);
    }
}

/// Bits give a number whose bits they are.
proof fn lemma_bits_of_value(s: Seq<bool>)
    ensures
        spec_bits_value(s) < pow2(s.len()),
        spec_bits(spec_bits_value(s), s.len()) == s,
    decreases s.len(),
{
    if s.len() == 0 {
        lemma2_to64();
        assert(spec_bits(0, 0) =~= s);
    } else {
        let w = s.drop_last();
        lemma_bits_of_value(w);
        let v = spec_bits_value(w);
        let b: nat = if s.last() { 1 } else { 0 };
        lemma2_to64();
        lemma_pow2_unfold(s.len());
        lemma_bits_concat(v, w.len(), b, 1);
        assert(w.len() + 1 == s.len());
        assert(spec_bits(b, 1) =~= seq![s.last()]);
        assert(w + seq![s.last()] =~= s);
    }
}

/// Bytes are given back by their bits.
proof fn lemma_bytes_of_bits(r: Seq<u8>)
    ensures
        spec_bits_bytes(spec_bytes_bits(r)) == r,
{
    let bits = spec_bytes_bits(r);
    assert forall|i: int| 0 <= i < r.len() implies #[trigger] spec_bits_bytes(bits)[i] == r[i] by {
        assert(bits.subrange(8 * i, 8 * i + 8) =~= spec_bits(r[i] as nat, 8)) by {
            assert forall|t: int| 0 <= t < 8 implies bits.subrange(8 * i, 8 * i + 8)[t] == spec_bits(
                r[i] as nat,
                8,
            )[t] by {
                assert((8 * i + t) / 8 == i && (8 * i + t) % 8 == t);
            }
        }
        lemma2_to64();
        lemma_value_of_bits(r[i] as nat, 8);
    }
    assert(spec_bits_bytes(bits) =~= r);
}

/// The bits of the Huffman encoding of `v` are its codes filled up with ones.
pub proof fn lemma_huffman_encode_bits(v: Seq<u8>)
    ensures
        spec_bytes_bits(spec_huffman_encode(v)) == spec_huffman_bits(v),
{
    let bits = spec_huffman_bits(v);
    let c = spec_code_bits(v);
    let r = spec_huffman_encode(v);
    vstd::arithmetic::div_mod::lemma_fundamental_div_mod(c.len() as int, 8);
    assert(bits.len() % 8 == 0);
    assert forall|k: int| 0 <= k < bits.len() implies #[trigger] spec_bytes_bits(r)[k] == bits[k] by {
        let i = k / 8;
        let t = k % 8;
        let sub = bits.subrange(8 * i, 8 * i + 8);
        lemma_bits_of_value(sub);
        lemma2_to64();
        assert(spec_bits(spec_bits_value(sub), 8)[t] == sub[t]);
    }
    assert(spec_bytes_bits(r) =~= bits);
}

/// A decoder at the start is well formed.
pub proof fn lemma_start_wf()
    ensures
        HuffmanState::start(Seq::empty()).wf(),
{
    lemma2_to64();
}

/// A code has at most thirty bits.
proof fn lemma_code_bits_len(v: Seq<u8>)
    ensures
        spec_code_bits(v).len() <= 30 * v.len(),
    decreases v.len(),
{
    if v.len() > 0 {
        lemma_code_bits_len(v.drop_last());
        lemma_code_facts(v.last() as u16);
    }
}

/// The Huffman encoding is at most four bytes per byte coded.
pub proof fn lemma_encode_len(v: Seq<u8>)
    ensures
        spec_huffman_encode(v).len() <= 4 * v.len(),
{
    let c = spec_code_bits(v);
    let t = spec_huffman_bits(v).len();
    lemma_code_bits_len(v);
    lemma_fundamental_div_mod(c.len() as int, 8);
    lemma_fundamental_div_mod(t as int, 8);
}

/// What a decoder that met no error has read: the codes of the bytes it
/// decoded, then the bits of its partial code.
proof fn lemma_run_read(o: Seq<u8>, bits: Seq<bool>)
    requires
        HuffmanState::start(o).run(bits).err is None,
    ensures
        ({
            let st = HuffmanState::start(o).run(bits);
            &&& o.len() <= st.out.len()
            &&& st.out.subrange(0, o.len() as int) == o
            &&& bits == spec_code_bits(st.out.skip(o.len() as int)) + spec_bits(st.x, st.l)
        }),
    decreases bits.len(),
{
    let st = HuffmanState::start(o).run(bits);
    if bits.len() == 0 {
        assert(st.out.skip(o.len() as int) =~= Seq::<u8>::empty());
        assert(spec_bits(0, 0) =~= Seq::<bool>::empty());
        assert(bits =~= spec_code_bits(Seq::<u8>::empty()) + spec_bits(0, 0));
    } else {
        let pre = bits.drop_last();
        let st0 = HuffmanState::start(o).run(pre);
        lemma_run_read(o, pre);
        let w0 = st0.out.skip(o.len() as int);
        let b: nat = if bits.last() { 1 } else { 0 };
        let x = 2 * st0.x + b;
        let l = st0.l + 1;
        lemma2_to64();
        lemma_run_wf(HuffmanState::start(o), pre);
        lemma_pow2_unfold(l);
        lemma_bits_concat(st0.x, st0.l, b, 1);
        assert(spec_bits(b, 1) =~= seq![bits.last()]);
        assert(pre + seq![bits.last()] =~= bits);
        assert(bits == spec_code_bits(w0) + spec_bits(x, l)) by {
            assert(spec_bits(st0.x, st0.l) + spec_bits(b, 1) == spec_bits(x, l));
            assert(spec_code_bits(w0) + spec_bits(x, l) =~= (spec_code_bits(w0) + spec_bits(st0.x, st0.l))
                + seq![bits.last()]);
        }
        match spec_huff_sym(l as u8, x as u32) {
            Some(t) => {
                lemma_sym_facts(l as u8, x as u32);
                let w = st.out.skip(o.len() as int);
                assert(w.drop_last() =~= w0);
                assert(w.last() == t as u8);
                assert(spec_bits(0, 0) =~= Seq::<bool>::empty());
                assert(spec_code_bits(w) + spec_bits(0, 0) =~= spec_code_bits(w0) + spec_bits(x, l));
            },
            None => {},
        }
    }
}

/// Huffman decoding accepts exactly the encodings: bytes that decode to `v`
/// are the Huffman encoding of `v`.
pub proof fn lemma_decode_is_encoding(b: Seq<u8>)
    requires
        spec_huffman_decode(b) is Ok,
    ensures
        b == spec_huffman_encode(spec_huffman_decode(b)->Ok_0),
{
    let bits = spec_bytes_bits(b);
    let st = HuffmanState::start(Seq::empty()).run(bits);
    lemma_run_read(Seq::empty(), bits);
    let v = st.out;
    assert(st.out.skip(0) =~= v);
    let c = spec_code_bits(v);
    lemma_bits_ones(st.l);
    let ones = Seq::new(st.l, |i: int| true);
    assert(bits =~= c + ones);
    lemma_fundamental_div_mod(c.len() as int, 8);
    assert(st.l == spec_pad_len(c.len()));
    assert(bits =~= spec_huffman_bits(v));
    lemma_bytes_of_bits(b);
}

/// Decoding and encoding undo each other: `b` decodes to `v` exactly when
/// `b` is the Huffman encoding of `v`.
pub proof fn lemma_decode_iff_encoding(b: Seq<u8>, v: Seq<u8>)
    ensures
        spec_huffman_decode(b) == Ok::<Seq<u8>, HuffmanDecodingError>(v) <==> b == spec_huffman_encode(v),
{
    if b == spec_huffman_encode(v) {
        lemma_huffman_encode_bits(v);
        lemma_decode_encode(v, b);
    }
    if spec_huffman_decode(b) == Ok::<Seq<u8>, HuffmanDecodingError>(v) {
        lemma_decode_is_encoding(b);
    }
}

/// Within one length, codes go up with their symbols, one step at a time.
proof fn lemma_sym_increasing(l: u8, k: u32)
    requires
        5 <= l <= 30,
        k + 1 < spec_huff_count(l as nat),
    ensures
        spec_huff_sym(l, (spec_huff_first(l as nat) + k) as u32) is Some,
        spec_huff_sym(l, (spec_huff_first(l as nat) + k + 1) as u32) is Some,
        spec_huff_sym(l, (spec_huff_first(l as nat) + k) as u32)->Some_0
            < spec_huff_sym(l, (spec_huff_first(l as nat) + k + 1) as u32)->Some_0,
{
    if l == 5 {
        if k == 0 {} else if k == 1 {} else if k == 2 {} else if k == 3 {} else if k == 4 {} else if k == 5 {} else if k == 6 {} else if k == 7 {} else if k == 8 {}
    } else if l == 6 {
        if k == 0 {} else if k == 1 {} else if k == 2 {} else if k == 3 {} else if k == 4 {} else if k == 5 {} else if k == 6 {} else if k == 7 {} else if k == 8 {} else if k == 9 {} else if k == 10 {} else if k == 11 {} else if k == 12 {} else if k == 13 {} else if k == 14 {} else if k == 15 {} else if k == 16 {} else if k == 17 {} else if k == 18 {} else if k == 19 {} else if k == 20 {} else if k == 21 {} else if k == 22 {} else if k == 23 {} else if k == 24 {}
    } else if l == 7 {
        if k == 0 {} else if k == 1 {} else if k == 2 {} else if k == 3 {} else if k == 4 {} else if k == 5 {} else if k == 6 {} else if k == 7 {} else if k == 8 {} else if k == 9 {} else if k == 10 {} else if k == 11 {} else if k == 12 {} else if k == 13 {} else if k == 14 {} else if k == 15 {} else if k == 16 {} else if k == 17 {} else if k == 18 {} else if k == 19 {} else if k == 20 {} else if k == 21 {} else if k == 22 {} else if k == 23 {} else if k == 24 {} else if k == 25 {} else if k == 26 {} else if k == 27 {} else if k == 28 {} else if k == 29 {} else if k == 30 {}
    } else if l == 8 {
        if k == 0 {} else if k == 1 {} else if k == 2 {} else if k == 3 {} else if k == 4 {}
    } else if l == 10 {
        if k == 0 {} else if k == 1 {} else if k == 2 {} else if k == 3 {}
    } else if l == 11 {
        if k == 0 {} else if k == 1 {}
    } else if l == 12 {
        if k == 0 {}
    } else if l == 13 {
        if k == 0 {} else if k == 1 {} else if k == 2 {} else if k == 3 {} else if k == 4 {}
    } else if l == 14 {
        if k == 0 {}
    } else if l == 15 {
        if k == 0 {} else if k == 1 {}
    } else if l == 19 {
        if k == 0 {} else if k == 1 {}
    } else if l == 20 {
        if k == 0 {} else if k == 1 {} else if k == 2 {} else if k == 3 {} else if k == 4 {} else if k == 5 {} else if k == 6 {}
    } else if l == 21 {
        if k == 0 {} else if k == 1 {} else if k == 2 {} else if k == 3 {} else if k == 4 {} else if k == 5 {} else if k == 6 {} else if k == 7 {} else if k == 8 {} else if k == 9 {} else if k == 10 {} else if k == 11 {}
    } else if l == 22 {
        if k == 0 {} else if k == 1 {} else if k == 2 {} else if k == 3 {} else if k == 4 {} else if k == 5 {} else if k == 6 {} else if k == 7 {} else if k == 8 {} else if k == 9 {} else if k == 10 {} else if k == 11 {} else if k == 12 {} else if k == 13 {} else if k == 14 {} else if k == 15 {} else if k == 16 {} else if k == 17 {} else if k == 18 {} else if k == 19 {} else if k == 20 {} else if k == 21 {} else if k == 22 {} else if k == 23 {} else if k == 24 {}
    } else if l == 23 {
        if k == 0 {} else if k == 1 {} else if k == 2 {} else if k == 3 {} else if k == 4 {} else if k == 5 {} else if k == 6 {} else if k == 7 {} else if k == 8 {} else if k == 9 {} else if k == 10 {} else if k == 11 {} else if k == 12 {} else if k == 13 {} else if k == 14 {} else if k == 15 {} else if k == 16 {} else if k == 17 {} else if k == 18 {} else if k == 19 {} else if k == 20 {} else if k == 21 {} else if k == 22 {} else if k == 23 {} else if k == 24 {} else if k == 25 {} else if k == 26 {} else if k == 27 {}
    } else if l == 24 {
        if k == 0 {} else if k == 1 {} else if k == 2 {} else if k == 3 {} else if k == 4 {} else if k == 5 {} else if k == 6 {} else if k == 7 {} else if k == 8 {} else if k == 9 {} else if k == 10 {}
    } else if l == 25 {
        if k == 0 {} else if k == 1 {} else if k == 2 {}
    } else if l == 26 {
        if k == 0 {} else if k == 1 {} else if k == 2 {} else if k == 3 {} else if k == 4 {} else if k == 5 {} else if k == 6 {} else if k == 7 {} else if k == 8 {} else if k == 9 {} else if k == 10 {} else if k == 11 {} else if k == 12 {} else if k == 13 {}
    } else if l == 27 {
        if k == 0 {} else if k == 1 {} else if k == 2 {} else if k == 3 {} else if k == 4 {} else if k == 5 {} else if k == 6 {} else if k == 7 {} else if k == 8 {} else if k == 9 {} else if k == 10 {} else if k == 11 {} else if k == 12 {} else if k == 13 {} else if k == 14 {} else if k == 15 {} else if k == 16 {} else if k == 17 {}
    } else if l == 28 {
        if k == 0 {} else if k == 1 {} else if k == 2 {} else if k == 3 {} else if k == 4 {} else if k == 5 {} else if k == 6 {} else if k == 7 {} else if k == 8 {} else if k == 9 {} else if k == 10 {} else if k == 11 {} else if k == 12 {} else if k == 13 {} else if k == 14 {} else if k == 15 {} else if k == 16 {} else if k == 17 {} else if k == 18 {} else if k == 19 {} else if k == 20 {} else if k == 21 {} else if k == 22 {} else if k == 23 {} else if k == 24 {} else if k == 25 {} else if k == 26 {} else if k == 27 {}
    } else if l == 30 {
        if k == 0 {} else if k == 1 {} else if k == 2 {}
    }
}

/// Within one length, a later code is the code of a later symbol.
proof fn lemma_sym_monotone(l: u8, a: u32, b: u32)
    requires
        5 <= l <= 30,
        a < b < spec_huff_count(l as nat),
    ensures
        spec_huff_sym(l, (spec_huff_first(l as nat) + a) as u32) is Some,
        spec_huff_sym(l, (spec_huff_first(l as nat) + b) as u32) is Some,
        spec_huff_sym(l, (spec_huff_first(l as nat) + a) as u32)->Some_0
            < spec_huff_sym(l, (spec_huff_first(l as nat) + b) as u32)->Some_0,
    decreases b - a,
{
    lemma_sym_increasing(l, (b - 1) as u32);
    if a + 1 < b {
        lemma_sym_monotone(l, a, (b - 1) as u32);
    }
}

/// The code is canonical, as RFC 7541 Appendix B is: two symbols whose codes
/// have the same length have codes in the order of the symbols.
pub proof fn lemma_code_canonical(s: u16, t: u16)
    requires
        s < t <= 256,
        spec_huff_len(s) == spec_huff_len(t),
    ensures
        spec_huff_code(s) < spec_huff_code(t),
{
    lemma_code_facts(s);
    lemma_code_facts(t);
    let l = spec_huff_len(s);
    let f = spec_huff_first(l as nat);
    let a = (spec_huff_code(s) - f) as u32;
    let b = (spec_huff_code(t) - f) as u32;
    if b < a {
        lemma_sym_monotone(l, b, a);
        assert((f + b) as u32 == spec_huff_code(t));
        assert((f + a) as u32 == spec_huff_code(s));
    }
}

/// The length of the code of each symbol, as RFC 7541 Appendix B lists
/// them, by runs of consecutive symbols.
pub open spec fn spec_rfc7541_length(s: u16) -> u8 {
    if s == 0 {
        13
    } else if s == 1 {
        23
    } else if 2 <= s <= 8 {
        28
    } else if s == 9 {
        24
    } else if s == 10 {
        30
    } else if 11 <= s <= 12 {
        28
    } else if s == 13 {
        30
    } else if 14 <= s <= 21 {
        28
    } else if s == 22 {
        30
    } else if 23 <= s <= 31 {
        28
    } else if s == 32 {
        6
    } else if 33 <= s <= 34 {
        10
    } else if s == 35 {
        12
    } else if s == 36 {
        13
    } else if s == 37 {
        6
    } else if s == 38 {
        8
    } else if s == 39 {
        11
    } else if 40 <= s <= 41 {
        10
    } else if s == 42 {
        8
    } else if s == 43 {
        11
    } else if s == 44 {
        8
    } else if 45 <= s <= 47 {
        6
    } else if 48 <= s <= 50 {
        5
    } else if 51 <= s <= 57 {
        6
    } else if s == 58 {
        7
    } else if s == 59 {
        8
    } else if s == 60 {
        15
    } else if s == 61 {
        6
    } else if s == 62 {
        12
    } else if s == 63 {
        10
    } else if s == 64 {
        13
    } else if s == 65 {
        6
    } else if 66 <= s <= 87 {
        7
    } else if s == 88 {
        8
    } else if s == 89 {
        7
    } else if s == 90 {
        8
    } else if s == 91 {
        13
    } else if s == 92 {
        19
    } else if s == 93 {
        13
    } else if s == 94 {
        14
    } else if s == 95 {
        6
    } else if s == 96 {
        15
    } else if s == 97 {
        5
    } else if s == 98 {
        6
    } else if s == 99 {
        5
    } else if s == 100 {
        6
    } else if s == 101 {
        5
    } else if 102 <= s <= 104 {
        6
    } else if s == 105 {
        5
    } else if 106 <= s <= 107 {
        7
    } else if 108 <= s <= 110 {
        6
    } else if s == 111 {
        5
    } else if s == 112 {
        6
    } else if s == 113 {
        7
    } else if s == 114 {
        6
    } else if 115 <= s <= 116 {
        5
    } else if s == 117 {
        6
    } else if 118 <= s <= 122 {
        7
    } else if s == 123 {
        15
    } else if s == 124 {
        11
    } else if s == 125 {
        14
    } else if s == 126 {
        13
    } else if s == 127 {
        28
    } else if s == 128 {
        20
    } else if s == 129 {
        22
    } else if 130 <= s <= 131 {
        20
    } else if 132 <= s <= 134 {
        22
    } else if s == 135 {
        23
    } else if s == 136 {
        22
    } else if 137 <= s <= 141 {
        23
    } else if s == 142 {
        24
    } else if s == 143 {
        23
    } else if 144 <= s <= 145 {
        24
    } else if s == 146 {
        22
    } else if s == 147 {
        23
    } else if s == 148 {
        24
    } else if 149 <= s <= 152 {
        23
    } else if s == 153 {
        21
    } else if s == 154 {
        22
    } else if s == 155 {
        23
    } else if s == 156 {
        22
    } else if 157 <= s <= 158 {
        23
    } else if s == 159 {
        24
    } else if s == 160 {
        22
    } else if s == 161 {
        21
    } else if s == 162 {
        20
    } else if 163 <= s <= 164 {
        22
    } else if 165 <= s <= 166 {
        23
    } else if s == 167 {
        21
    } else if s == 168 {
        23
    } else if 169 <= s <= 170 {
        22
    } else if s == 171 {
        24
    } else if s == 172 {
        21
    } else if s == 173 {
        22
    } else if 174 <= s <= 175 {
        23
    } else if 176 <= s <= 177 {
        21
    } else if s == 178 {
        22
    } else if s == 179 {
        21
    } else if s == 180 {
        23
    } else if s == 181 {
        22
    } else if 182 <= s <= 183 {
        23
    } else if s == 184 {
        20
    } else if 185 <= s <= 187 {
        22
    } else if s == 188 {
        23
    } else if 189 <= s <= 190 {
        22
    } else if s == 191 {
        23
    } else if 192 <= s <= 193 {
        26
    } else if s == 194 {
        20
    } else if s == 195 {
        19
    } else if s == 196 {
        22
    } else if s == 197 {
        23
    } else if s == 198 {
        22
    } else if s == 199 {
        25
    } else if 200 <= s <= 202 {
        26
    } else if 203 <= s <= 204 {
        27
    } else if s == 205 {
        26
    } else if s == 206 {
        24
    } else if s == 207 {
        25
    } else if s == 208 {
        19
    } else if s == 209 {
        21
    } else if s == 210 {
        26
    } else if 211 <= s <= 212 {
        27
    } else if s == 213 {
        26
    } else if s == 214 {
        27
    } else if s == 215 {
        24
    } else if 216 <= s <= 217 {
        21
    } else if 218 <= s <= 219 {
        26
    } else if s == 220 {
        28
    } else if 221 <= s <= 223 {
        27
    } else if s == 224 {
        20
    } else if s == 225 {
        24
    } else if s == 226 {
        20
    } else if s == 227 {
        21
    } else if s == 228 {
        22
    } else if 229 <= s <= 230 {
        21
    } else if s == 231 {
        23
    } else if 232 <= s <= 233 {
        22
    } else if 234 <= s <= 235 {
        25
    } else if 236 <= s <= 237 {
        24
    } else if s == 238 {
        26
    } else if s == 239 {
        23
    } else if s == 240 {
        26
    } else if s == 241 {
        27
    } else if 242 <= s <= 243 {
        26
    } else if 244 <= s <= 248 {
        27
    } else if s == 249 {
        28
    } else if 250 <= s <= 254 {
        27
    } else if s == 255 {
        26
    } else if s == 256 {
        30
    } else {
        0
    }
}

/// Every symbol's code has the length RFC 7541 Appendix B gives it.
pub proof fn lemma_code_lengths(s: u16)
    requires
        s <= 256,
    ensures
        spec_huff_len(s) == spec_rfc7541_length(s),
{
    if s < 32 {
        if s == 0 {} else if s == 1 {} else if s == 2 {} else if s == 3 {} else if s == 4 {} else if s == 5 {} else if s == 6 {} else if s == 7 {} else if s == 8 {} else if s == 9 {} else if s == 10 {} else if s == 11 {} else if s == 12 {} else if s == 13 {} else if s == 14 {} else if s == 15 {} else if s == 16 {} else if s == 17 {} else if s == 18 {} else if s == 19 {} else if s == 20 {} else if s == 21 {} else if s == 22 {} else if s == 23 {} else if s == 24 {} else if s == 25 {} else if s == 26 {} else if s == 27 {} else if s == 28 {} else if s == 29 {} else if s == 30 {} else if s == 31 {}
    } else if s < 64 {
        if s == 32 {} else if s == 33 {} else if s == 34 {} else if s == 35 {} else if s == 36 {} else if s == 37 {} else if s == 38 {} else if s == 39 {} else if s == 40 {} else if s == 41 {} else if s == 42 {} else if s == 43 {} else if s == 44 {} else if s == 45 {} else if s == 46 {} else if s == 47 {} else if s == 48 {} else if s == 49 {} else if s == 50 {} else if s == 51 {} else if s == 52 {} else if s == 53 {} else if s == 54 {} else if s == 55 {} else if s == 56 {} else if s == 57 {} else if s == 58 {} else if s == 59 {} else if s == 60 {} else if s == 61 {} else if s == 62 {} else if s == 63 {}
    } else if s < 96 {
        if s == 64 {} else if s == 65 {} else if s == 66 {} else if s == 67 {} else if s == 68 {} else if s == 69 {} else if s == 70 {} else if s == 71 {} else if s == 72 {} else if s == 73 {} else if s == 74 {} else if s == 75 {} else if s == 76 {} else if s == 77 {} else if s == 78 {} else if s == 79 {} else if s == 80 {} else if s == 81 {} else if s == 82 {} else if s == 83 {} else if s == 84 {} else if s == 85 {} else if s == 86 {} else if s == 87 {} else if s == 88 {} else if s == 89 {} else if s == 90 {} else if s == 91 {} else if s == 92 {} else if s == 93 {} else if s == 94 {} else if s == 95 {}
    } else if s < 128 {
        if s == 96 {} else if s == 97 {} else if s == 98 {} else if s == 99 {} else if s == 100 {} else if s == 101 {} else if s == 102 {} else if s == 103 {} else if s == 104 {} else if s == 105 {} else if s == 106 {} else if s == 107 {} else if s == 108 {} else if s == 109 {} else if s == 110 {} else if s == 111 {} else if s == 112 {} else if s == 113 {} else if s == 114 {} else if s == 115 {} else if s == 116 {} else if s == 117 {} else if s == 118 {} else if s == 119 {} else if s == 120 {} else if s == 121 {} else if s == 122 {} else if s == 123 {} else if s == 124 {} else if s == 125 {} else if s == 126 {} else if s == 127 {}
    } else if s < 160 {
        if s == 128 {} else if s == 129 {} else if s == 130 {} else if s == 131 {} else if s == 132 {} else if s == 133 {} else if s == 134 {} else if s == 135 {} else if s == 136 {} else if s == 137 {} else if s == 138 {} else if s == 139 {} else if s == 140 {} else if s == 141 {} else if s == 142 {} else if s == 143 {} else if s == 144 {} else if s == 145 {} else if s == 146 {} else if s == 147 {} else if s == 148 {} else if s == 149 {} else if s == 150 {} else if s == 151 {} else if s == 152 {} else if s == 153 {} else if s == 154 {} else if s == 155 {} else if s == 156 {} else if s == 157 {} else if s == 158 {} else if s == 159 {}
    } else if s < 192 {
        if s == 160 {} else if s == 161 {} else if s == 162 {} else if s == 163 {} else if s == 164 {} else if s == 165 {} else if s == 166 {} else if s == 167 {} else if s == 168 {} else if s == 169 {} else if s == 170 {} else if s == 171 {} else if s == 172 {} else if s == 173 {} else if s == 174 {} else if s == 175 {} else if s == 176 {} else if s == 177 {} else if s == 178 {} else if s == 179 {} else if s == 180 {} else if s == 181 {} else if s == 182 {} else if s == 183 {} else if s == 184 {} else if s == 185 {} else if s == 186 {} else if s == 187 {} else if s == 188 {} else if s == 189 {} else if s == 190 {} else if s == 191 {}
    } else if s < 224 {
        if s == 192 {} else if s == 193 {} else if s == 194 {} else if s == 195 {} else if s == 196 {} else if s == 197 {} else if s == 198 {} else if s == 199 {} else if s == 200 {} else if s == 201 {} else if s == 202 {} else if s == 203 {} else if s == 204 {} else if s == 205 {} else if s == 206 {} else if s == 207 {} else if s == 208 {} else if s == 209 {} else if s == 210 {} else if s == 211 {} else if s == 212 {} else if s == 213 {} else if s == 214 {} else if s == 215 {} else if s == 216 {} else if s == 217 {} else if s == 218 {} else if s == 219 {} else if s == 220 {} else if s == 221 {} else if s == 222 {} else if s == 223 {}
    } else if s < 256 {
        if s == 224 {} else if s == 225 {} else if s == 226 {} else if s == 227 {} else if s == 228 {} else if s == 229 {} else if s == 230 {} else if s == 231 {} else if s == 232 {} else if s == 233 {} else if s == 234 {} else if s == 235 {} else if s == 236 {} else if s == 237 {} else if s == 238 {} else if s == 239 {} else if s == 240 {} else if s == 241 {} else if s == 242 {} else if s == 243 {} else if s == 244 {} else if s == 245 {} else if s == 246 {} else if s == 247 {} else if s == 248 {} else if s == 249 {} else if s == 250 {} else if s == 251 {} else if s == 252 {} else if s == 253 {} else if s == 254 {} else if s == 255 {}
    } else if s < 257 {
        if s == 256 {}
    }
}

} // verus!
