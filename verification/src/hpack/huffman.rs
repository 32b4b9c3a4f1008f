//! HPACK Huffman coding (RFC 7541 §5.2 and Appendix B).
use crate::error::{ErrorCode, H2Error, Result};
use vstd::arithmetic::div_mod::*;
use vstd::arithmetic::mul::*;
use vstd::arithmetic::power2::*;
use vstd::bits::lemma_u64_shl_is_mul;
use vstd::prelude::*;

verus! {

/// The end-of-string symbol: 30 one-bits. Only ever used as padding at the
/// end of an encoded string; explicit occurrence in the input is an error.
pub const EOS_SYMBOL: u16 = 256;

/// The code of `sym` read as a binary fraction, scaled to 30 bits: the
/// start of the interval of 30-bit strings that begin with that code.
pub open spec fn interval_lo(sym: u16) -> int {
    code_of(sym).0 * pow2((30 - code_of(sym).1) as nat)
}

/// The number of 30-bit strings that begin with the code of `sym`.
pub open spec fn interval_width(sym: u16) -> int {
    pow2((30 - code_of(sym).1) as nat) as int
}

/// The Huffman code of each symbol (RFC 7541 Appendix B): the code as a
/// number and its length in bits. Symbols 0 to 255 are the byte values; the
/// end-of-string symbol 256 is thirty one-bits.
pub open spec fn code_of(sym: u16) -> (u32, u8) {
    match sym {
        0 => (0x1ff8, 13),
        1 => (0x7fffd8, 23),
        2 => (0xfffffe2, 28),
        3 => (0xfffffe3, 28),
        4 => (0xfffffe4, 28),
        5 => (0xfffffe5, 28),
        6 => (0xfffffe6, 28),
        7 => (0xfffffe7, 28),
        8 => (0xfffffe8, 28),
        9 => (0xffffea, 24),
        10 => (0x3ffffffc, 30),
        11 => (0xfffffe9, 28),
        12 => (0xfffffea, 28),
        13 => (0x3ffffffd, 30),
        14 => (0xfffffeb, 28),
        15 => (0xfffffec, 28),
        16 => (0xfffffed, 28),
        17 => (0xfffffee, 28),
        18 => (0xfffffef, 28),
        19 => (0xffffff0, 28),
        20 => (0xffffff1, 28),
        21 => (0xffffff2, 28),
        22 => (0x3ffffffe, 30),
        23 => (0xffffff3, 28),
        24 => (0xffffff4, 28),
        25 => (0xffffff5, 28),
        26 => (0xffffff6, 28),
        27 => (0xffffff7, 28),
        28 => (0xffffff8, 28),
        29 => (0xffffff9, 28),
        30 => (0xffffffa, 28),
        31 => (0xffffffb, 28),
        32 => (0x14, 6),
        33 => (0x3f8, 10),
        34 => (0x3f9, 10),
        35 => (0xffa, 12),
        36 => (0x1ff9, 13),
        37 => (0x15, 6),
        38 => (0xf8, 8),
        39 => (0x7fa, 11),
        40 => (0x3fa, 10),
        41 => (0x3fb, 10),
        42 => (0xf9, 8),
        43 => (0x7fb, 11),
        44 => (0xfa, 8),
        45 => (0x16, 6),
        46 => (0x17, 6),
        47 => (0x18, 6),
        48 => (0x0, 5),
        49 => (0x1, 5),
        50 => (0x2, 5),
        51 => (0x19, 6),
        52 => (0x1a, 6),
        53 => (0x1b, 6),
        54 => (0x1c, 6),
        55 => (0x1d, 6),
        56 => (0x1e, 6),
        57 => (0x1f, 6),
        58 => (0x5c, 7),
        59 => (0xfb, 8),
        60 => (0x7ffc, 15),
        61 => (0x20, 6),
        62 => (0xffb, 12),
        63 => (0x3fc, 10),
        64 => (0x1ffa, 13),
        65 => (0x21, 6),
        66 => (0x5d, 7),
        67 => (0x5e, 7),
        68 => (0x5f, 7),
        69 => (0x60, 7),
        70 => (0x61, 7),
        71 => (0x62, 7),
        72 => (0x63, 7),
        73 => (0x64, 7),
        74 => (0x65, 7),
        75 => (0x66, 7),
        76 => (0x67, 7),
        77 => (0x68, 7),
        78 => (0x69, 7),
        79 => (0x6a, 7),
        80 => (0x6b, 7),
        81 => (0x6c, 7),
        82 => (0x6d, 7),
        83 => (0x6e, 7),
        84 => (0x6f, 7),
        85 => (0x70, 7),
        86 => (0x71, 7),
        87 => (0x72, 7),
        88 => (0xfc, 8),
        89 => (0x73, 7),
        90 => (0xfd, 8),
        91 => (0x1ffb, 13),
        92 => (0x7fff0, 19),
        93 => (0x1ffc, 13),
        94 => (0x3ffc, 14),
        95 => (0x22, 6),
        96 => (0x7ffd, 15),
        97 => (0x3, 5),
        98 => (0x23, 6),
        99 => (0x4, 5),
        100 => (0x24, 6),
        101 => (0x5, 5),
        102 => (0x25, 6),
        103 => (0x26, 6),
        104 => (0x27, 6),
        105 => (0x6, 5),
        106 => (0x74, 7),
        107 => (0x75, 7),
        108 => (0x28, 6),
        109 => (0x29, 6),
        110 => (0x2a, 6),
        111 => (0x7, 5),
        112 => (0x2b, 6),
        113 => (0x76, 7),
        114 => (0x2c, 6),
        115 => (0x8, 5),
        116 => (0x9, 5),
        117 => (0x2d, 6),
        118 => (0x77, 7),
        119 => (0x78, 7),
        120 => (0x79, 7),
        121 => (0x7a, 7),
        122 => (0x7b, 7),
        123 => (0x7ffe, 15),
        124 => (0x7fc, 11),
        125 => (0x3ffd, 14),
        126 => (0x1ffd, 13),
        127 => (0xffffffc, 28),
        128 => (0xfffe6, 20),
        129 => (0x3fffd2, 22),
        130 => (0xfffe7, 20),
        131 => (0xfffe8, 20),
        132 => (0x3fffd3, 22),
        133 => (0x3fffd4, 22),
        134 => (0x3fffd5, 22),
        135 => (0x7fffd9, 23),
        136 => (0x3fffd6, 22),
        137 => (0x7fffda, 23),
        138 => (0x7fffdb, 23),
        139 => (0x7fffdc, 23),
        140 => (0x7fffdd, 23),
        141 => (0x7fffde, 23),
        142 => (0xffffeb, 24),
        143 => (0x7fffdf, 23),
        144 => (0xffffec, 24),
        145 => (0xffffed, 24),
        146 => (0x3fffd7, 22),
        147 => (0x7fffe0, 23),
        148 => (0xffffee, 24),
        149 => (0x7fffe1, 23),
        150 => (0x7fffe2, 23),
        151 => (0x7fffe3, 23),
        152 => (0x7fffe4, 23),
        153 => (0x1fffdc, 21),
        154 => (0x3fffd8, 22),
        155 => (0x7fffe5, 23),
        156 => (0x3fffd9, 22),
        157 => (0x7fffe6, 23),
        158 => (0x7fffe7, 23),
        159 => (0xffffef, 24),
        160 => (0x3fffda, 22),
        161 => (0x1fffdd, 21),
        162 => (0xfffe9, 20),
        163 => (0x3fffdb, 22),
        164 => (0x3fffdc, 22),
        165 => (0x7fffe8, 23),
        166 => (0x7fffe9, 23),
        167 => (0x1fffde, 21),
        168 => (0x7fffea, 23),
        169 => (0x3fffdd, 22),
        170 => (0x3fffde, 22),
        171 => (0xfffff0, 24),
        172 => (0x1fffdf, 21),
        173 => (0x3fffdf, 22),
        174 => (0x7fffeb, 23),
        175 => (0x7fffec, 23),
        176 => (0x1fffe0, 21),
        177 => (0x1fffe1, 21),
        178 => (0x3fffe0, 22),
        179 => (0x1fffe2, 21),
        180 => (0x7fffed, 23),
        181 => (0x3fffe1, 22),
        182 => (0x7fffee, 23),
        183 => (0x7fffef, 23),
        184 => (0xfffea, 20),
        185 => (0x3fffe2, 22),
        186 => (0x3fffe3, 22),
        187 => (0x3fffe4, 22),
        188 => (0x7ffff0, 23),
        189 => (0x3fffe5, 22),
        190 => (0x3fffe6, 22),
        191 => (0x7ffff1, 23),
        192 => (0x3ffffe0, 26),
        193 => (0x3ffffe1, 26),
        194 => (0xfffeb, 20),
        195 => (0x7fff1, 19),
        196 => (0x3fffe7, 22),
        197 => (0x7ffff2, 23),
        198 => (0x3fffe8, 22),
        199 => (0x1ffffec, 25),
        200 => (0x3ffffe2, 26),
        201 => (0x3ffffe3, 26),
        202 => (0x3ffffe4, 26),
        203 => (0x7ffffde, 27),
        204 => (0x7ffffdf, 27),
        205 => (0x3ffffe5, 26),
        206 => (0xfffff1, 24),
        207 => (0x1ffffed, 25),
        208 => (0x7fff2, 19),
        209 => (0x1fffe3, 21),
        210 => (0x3ffffe6, 26),
        211 => (0x7ffffe0, 27),
        212 => (0x7ffffe1, 27),
        213 => (0x3ffffe7, 26),
        214 => (0x7ffffe2, 27),
        215 => (0xfffff2, 24),
        216 => (0x1fffe4, 21),
        217 => (0x1fffe5, 21),
        218 => (0x3ffffe8, 26),
        219 => (0x3ffffe9, 26),
        220 => (0xffffffd, 28),
        221 => (0x7ffffe3, 27),
        222 => (0x7ffffe4, 27),
        223 => (0x7ffffe5, 27),
        224 => (0xfffec, 20),
        225 => (0xfffff3, 24),
        226 => (0xfffed, 20),
        227 => (0x1fffe6, 21),
        228 => (0x3fffe9, 22),
        229 => (0x1fffe7, 21),
        230 => (0x1fffe8, 21),
        231 => (0x7ffff3, 23),
        232 => (0x3fffea, 22),
        233 => (0x3fffeb, 22),
        234 => (0x1ffffee, 25),
        235 => (0x1ffffef, 25),
        236 => (0xfffff4, 24),
        237 => (0xfffff5, 24),
        238 => (0x3ffffea, 26),
        239 => (0x7ffff4, 23),
        240 => (0x3ffffeb, 26),
        241 => (0x7ffffe6, 27),
        242 => (0x3ffffec, 26),
        243 => (0x3ffffed, 26),
        244 => (0x7ffffe7, 27),
        245 => (0x7ffffe8, 27),
        246 => (0x7ffffe9, 27),
        247 => (0x7ffffea, 27),
        248 => (0x7ffffeb, 27),
        249 => (0xffffffe, 28),
        250 => (0x7ffffec, 27),
        251 => (0x7ffffed, 27),
        252 => (0x7ffffee, 27),
        253 => (0x7ffffef, 27),
        254 => (0x7fffff0, 27),
        255 => (0x3ffffee, 26),
        _ => (0x3fffffff, 30),
    }
}

/// The symbols in the order of their codes read as binary fractions, so
/// that position `k` holds the symbol with the `k`-th smallest code.
pub open spec fn symbol_in_code_order(k: u16) -> u16 {
    match k {
        0 => 48,
        1 => 49,
        2 => 50,
        3 => 97,
        4 => 99,
        5 => 101,
        6 => 105,
        7 => 111,
        8 => 115,
        9 => 116,
        10 => 32,
        11 => 37,
        12 => 45,
        13 => 46,
        14 => 47,
        15 => 51,
        16 => 52,
        17 => 53,
        18 => 54,
        19 => 55,
        20 => 56,
        21 => 57,
        22 => 61,
        23 => 65,
        24 => 95,
        25 => 98,
        26 => 100,
        27 => 102,
        28 => 103,
        29 => 104,
        30 => 108,
        31 => 109,
        32 => 110,
        33 => 112,
        34 => 114,
        35 => 117,
        36 => 58,
        37 => 66,
        38 => 67,
        39 => 68,
        40 => 69,
        41 => 70,
        42 => 71,
        43 => 72,
        44 => 73,
        45 => 74,
        46 => 75,
        47 => 76,
        48 => 77,
        49 => 78,
        50 => 79,
        51 => 80,
        52 => 81,
        53 => 82,
        54 => 83,
        55 => 84,
        56 => 85,
        57 => 86,
        58 => 87,
        59 => 89,
        60 => 106,
        61 => 107,
        62 => 113,
        63 => 118,
        64 => 119,
        65 => 120,
        66 => 121,
        67 => 122,
        68 => 38,
        69 => 42,
        70 => 44,
        71 => 59,
        72 => 88,
        73 => 90,
        74 => 33,
        75 => 34,
        76 => 40,
        77 => 41,
        78 => 63,
        79 => 39,
        80 => 43,
        81 => 124,
        82 => 35,
        83 => 62,
        84 => 0,
        85 => 36,
        86 => 64,
        87 => 91,
        88 => 93,
        89 => 126,
        90 => 94,
        91 => 125,
        92 => 60,
        93 => 96,
        94 => 123,
        95 => 92,
        96 => 195,
        97 => 208,
        98 => 128,
        99 => 130,
        100 => 131,
        101 => 162,
        102 => 184,
        103 => 194,
        104 => 224,
        105 => 226,
        106 => 153,
        107 => 161,
        108 => 167,
        109 => 172,
        110 => 176,
        111 => 177,
        112 => 179,
        113 => 209,
        114 => 216,
        115 => 217,
        116 => 227,
        117 => 229,
        118 => 230,
        119 => 129,
        120 => 132,
        121 => 133,
        122 => 134,
        123 => 136,
        124 => 146,
        125 => 154,
        126 => 156,
        127 => 160,
        128 => 163,
        129 => 164,
        130 => 169,
        131 => 170,
        132 => 173,
        133 => 178,
        134 => 181,
        135 => 185,
        136 => 186,
        137 => 187,
        138 => 189,
        139 => 190,
        140 => 196,
        141 => 198,
        142 => 228,
        143 => 232,
        144 => 233,
        145 => 1,
        146 => 135,
        147 => 137,
        148 => 138,
        149 => 139,
        150 => 140,
        151 => 141,
        152 => 143,
        153 => 147,
        154 => 149,
        155 => 150,
        156 => 151,
        157 => 152,
        158 => 155,
        159 => 157,
        160 => 158,
        161 => 165,
        162 => 166,
        163 => 168,
        164 => 174,
        165 => 175,
        166 => 180,
        167 => 182,
        168 => 183,
        169 => 188,
        170 => 191,
        171 => 197,
        172 => 231,
        173 => 239,
        174 => 9,
        175 => 142,
        176 => 144,
        177 => 145,
        178 => 148,
        179 => 159,
        180 => 171,
        181 => 206,
        182 => 215,
        183 => 225,
        184 => 236,
        185 => 237,
        186 => 199,
        187 => 207,
        188 => 234,
        189 => 235,
        190 => 192,
        191 => 193,
        192 => 200,
        193 => 201,
        194 => 202,
        195 => 205,
        196 => 210,
        197 => 213,
        198 => 218,
        199 => 219,
        200 => 238,
        201 => 240,
        202 => 242,
        203 => 243,
        204 => 255,
        205 => 203,
        206 => 204,
        207 => 211,
        208 => 212,
        209 => 214,
        210 => 221,
        211 => 222,
        212 => 223,
        213 => 241,
        214 => 244,
        215 => 245,
        216 => 246,
        217 => 247,
        218 => 248,
        219 => 250,
        220 => 251,
        221 => 252,
        222 => 253,
        223 => 254,
        224 => 2,
        225 => 3,
        226 => 4,
        227 => 5,
        228 => 6,
        229 => 7,
        230 => 8,
        231 => 11,
        232 => 12,
        233 => 14,
        234 => 15,
        235 => 16,
        236 => 17,
        237 => 18,
        238 => 19,
        239 => 20,
        240 => 21,
        241 => 23,
        242 => 24,
        243 => 25,
        244 => 26,
        245 => 27,
        246 => 28,
        247 => 29,
        248 => 30,
        249 => 31,
        250 => 127,
        251 => 220,
        252 => 249,
        253 => 10,
        254 => 13,
        255 => 22,
        _ => 256,
    }
}

/// The position of each symbol in `symbol_in_code_order`.
pub open spec fn code_order_of(sym: u16) -> u16 {
    match sym {
        0 => 84,
        1 => 145,
        2 => 224,
        3 => 225,
        4 => 226,
        5 => 227,
        6 => 228,
        7 => 229,
        8 => 230,
        9 => 174,
        10 => 253,
        11 => 231,
        12 => 232,
        13 => 254,
        14 => 233,
        15 => 234,
        16 => 235,
        17 => 236,
        18 => 237,
        19 => 238,
        20 => 239,
        21 => 240,
        22 => 255,
        23 => 241,
        24 => 242,
        25 => 243,
        26 => 244,
        27 => 245,
        28 => 246,
        29 => 247,
        30 => 248,
        31 => 249,
        32 => 10,
        33 => 74,
        34 => 75,
        35 => 82,
        36 => 85,
        37 => 11,
        38 => 68,
        39 => 79,
        40 => 76,
        41 => 77,
        42 => 69,
        43 => 80,
        44 => 70,
        45 => 12,
        46 => 13,
        47 => 14,
        48 => 0,
        49 => 1,
        50 => 2,
        51 => 15,
        52 => 16,
        53 => 17,
        54 => 18,
        55 => 19,
        56 => 20,
        57 => 21,
        58 => 36,
        59 => 71,
        60 => 92,
        61 => 22,
        62 => 83,
        63 => 78,
        64 => 86,
        65 => 23,
        66 => 37,
        67 => 38,
        68 => 39,
        69 => 40,
        70 => 41,
        71 => 42,
        72 => 43,
        73 => 44,
        74 => 45,
        75 => 46,
        76 => 47,
        77 => 48,
        78 => 49,
        79 => 50,
        80 => 51,
        81 => 52,
        82 => 53,
        83 => 54,
        84 => 55,
        85 => 56,
        86 => 57,
        87 => 58,
        88 => 72,
        89 => 59,
        90 => 73,
        91 => 87,
        92 => 95,
        93 => 88,
        94 => 90,
        95 => 24,
        96 => 93,
        97 => 3,
        98 => 25,
        99 => 4,
        100 => 26,
        101 => 5,
        102 => 27,
        103 => 28,
        104 => 29,
        105 => 6,
        106 => 60,
        107 => 61,
        108 => 30,
        109 => 31,
        110 => 32,
        111 => 7,
        112 => 33,
        113 => 62,
        114 => 34,
        115 => 8,
        116 => 9,
        117 => 35,
        118 => 63,
        119 => 64,
        120 => 65,
        121 => 66,
        122 => 67,
        123 => 94,
        124 => 81,
        125 => 91,
        126 => 89,
        127 => 250,
        128 => 98,
        129 => 119,
        130 => 99,
        131 => 100,
        132 => 120,
        133 => 121,
        134 => 122,
        135 => 146,
        136 => 123,
        137 => 147,
        138 => 148,
        139 => 149,
        140 => 150,
        141 => 151,
        142 => 175,
        143 => 152,
        144 => 176,
        145 => 177,
        146 => 124,
        147 => 153,
        148 => 178,
        149 => 154,
        150 => 155,
        151 => 156,
        152 => 157,
        153 => 106,
        154 => 125,
        155 => 158,
        156 => 126,
        157 => 159,
        158 => 160,
        159 => 179,
        160 => 127,
        161 => 107,
        162 => 101,
        163 => 128,
        164 => 129,
        165 => 161,
        166 => 162,
        167 => 108,
        168 => 163,
        169 => 130,
        170 => 131,
        171 => 180,
        172 => 109,
        173 => 132,
        174 => 164,
        175 => 165,
        176 => 110,
        177 => 111,
        178 => 133,
        179 => 112,
        180 => 166,
        181 => 134,
        182 => 167,
        183 => 168,
        184 => 102,
        185 => 135,
        186 => 136,
        187 => 137,
        188 => 169,
        189 => 138,
        190 => 139,
        191 => 170,
        192 => 190,
        193 => 191,
        194 => 103,
        195 => 96,
        196 => 140,
        197 => 171,
        198 => 141,
        199 => 186,
        200 => 192,
        201 => 193,
        202 => 194,
        203 => 205,
        204 => 206,
        205 => 195,
        206 => 181,
        207 => 187,
        208 => 97,
        209 => 113,
        210 => 196,
        211 => 207,
        212 => 208,
        213 => 197,
        214 => 209,
        215 => 182,
        216 => 114,
        217 => 115,
        218 => 198,
        219 => 199,
        220 => 251,
        221 => 210,
        222 => 211,
        223 => 212,
        224 => 104,
        225 => 183,
        226 => 105,
        227 => 116,
        228 => 142,
        229 => 117,
        230 => 118,
        231 => 172,
        232 => 143,
        233 => 144,
        234 => 188,
        235 => 189,
        236 => 184,
        237 => 185,
        238 => 200,
        239 => 173,
        240 => 201,
        241 => 213,
        242 => 202,
        243 => 203,
        244 => 214,
        245 => 215,
        246 => 216,
        247 => 217,
        248 => 218,
        249 => 252,
        250 => 219,
        251 => 220,
        252 => 221,
        253 => 222,
        254 => 223,
        255 => 204,
        _ => 256,
    }
}

/// The code of `sym`, looked up in the table of `code_of`.
fn code_entry(sym: u16) -> (r: (u32, u8))
    ensures
        r == code_of(sym),
{
    match sym {
        0 => (0x1ff8, 13),
        1 => (0x7fffd8, 23),
        2 => (0xfffffe2, 28),
        3 => (0xfffffe3, 28),
        4 => (0xfffffe4, 28),
        5 => (0xfffffe5, 28),
        6 => (0xfffffe6, 28),
        7 => (0xfffffe7, 28),
        8 => (0xfffffe8, 28),
        9 => (0xffffea, 24),
        10 => (0x3ffffffc, 30),
        11 => (0xfffffe9, 28),
        12 => (0xfffffea, 28),
        13 => (0x3ffffffd, 30),
        14 => (0xfffffeb, 28),
        15 => (0xfffffec, 28),
        16 => (0xfffffed, 28),
        17 => (0xfffffee, 28),
        18 => (0xfffffef, 28),
        19 => (0xffffff0, 28),
        20 => (0xffffff1, 28),
        21 => (0xffffff2, 28),
        22 => (0x3ffffffe, 30),
        23 => (0xffffff3, 28),
        24 => (0xffffff4, 28),
        25 => (0xffffff5, 28),
        26 => (0xffffff6, 28),
        27 => (0xffffff7, 28),
        28 => (0xffffff8, 28),
        29 => (0xffffff9, 28),
        30 => (0xffffffa, 28),
        31 => (0xffffffb, 28),
        32 => (0x14, 6),
        33 => (0x3f8, 10),
        34 => (0x3f9, 10),
        35 => (0xffa, 12),
        36 => (0x1ff9, 13),
        37 => (0x15, 6),
        38 => (0xf8, 8),
        39 => (0x7fa, 11),
        40 => (0x3fa, 10),
        41 => (0x3fb, 10),
        42 => (0xf9, 8),
        43 => (0x7fb, 11),
        44 => (0xfa, 8),
        45 => (0x16, 6),
        46 => (0x17, 6),
        47 => (0x18, 6),
        48 => (0x0, 5),
        49 => (0x1, 5),
        50 => (0x2, 5),
        51 => (0x19, 6),
        52 => (0x1a, 6),
        53 => (0x1b, 6),
        54 => (0x1c, 6),
        55 => (0x1d, 6),
        56 => (0x1e, 6),
        57 => (0x1f, 6),
        58 => (0x5c, 7),
        59 => (0xfb, 8),
        60 => (0x7ffc, 15),
        61 => (0x20, 6),
        62 => (0xffb, 12),
        63 => (0x3fc, 10),
        64 => (0x1ffa, 13),
        65 => (0x21, 6),
        66 => (0x5d, 7),
        67 => (0x5e, 7),
        68 => (0x5f, 7),
        69 => (0x60, 7),
        70 => (0x61, 7),
        71 => (0x62, 7),
        72 => (0x63, 7),
        73 => (0x64, 7),
        74 => (0x65, 7),
        75 => (0x66, 7),
        76 => (0x67, 7),
        77 => (0x68, 7),
        78 => (0x69, 7),
        79 => (0x6a, 7),
        80 => (0x6b, 7),
        81 => (0x6c, 7),
        82 => (0x6d, 7),
        83 => (0x6e, 7),
        84 => (0x6f, 7),
        85 => (0x70, 7),
        86 => (0x71, 7),
        87 => (0x72, 7),
        88 => (0xfc, 8),
        89 => (0x73, 7),
        90 => (0xfd, 8),
        91 => (0x1ffb, 13),
        92 => (0x7fff0, 19),
        93 => (0x1ffc, 13),
        94 => (0x3ffc, 14),
        95 => (0x22, 6),
        96 => (0x7ffd, 15),
        97 => (0x3, 5),
        98 => (0x23, 6),
        99 => (0x4, 5),
        100 => (0x24, 6),
        101 => (0x5, 5),
        102 => (0x25, 6),
        103 => (0x26, 6),
        104 => (0x27, 6),
        105 => (0x6, 5),
        106 => (0x74, 7),
        107 => (0x75, 7),
        108 => (0x28, 6),
        109 => (0x29, 6),
        110 => (0x2a, 6),
        111 => (0x7, 5),
        112 => (0x2b, 6),
        113 => (0x76, 7),
        114 => (0x2c, 6),
        115 => (0x8, 5),
        116 => (0x9, 5),
        117 => (0x2d, 6),
        118 => (0x77, 7),
        119 => (0x78, 7),
        120 => (0x79, 7),
        121 => (0x7a, 7),
        122 => (0x7b, 7),
        123 => (0x7ffe, 15),
        124 => (0x7fc, 11),
        125 => (0x3ffd, 14),
        126 => (0x1ffd, 13),
        127 => (0xffffffc, 28),
        128 => (0xfffe6, 20),
        129 => (0x3fffd2, 22),
        130 => (0xfffe7, 20),
        131 => (0xfffe8, 20),
        132 => (0x3fffd3, 22),
        133 => (0x3fffd4, 22),
        134 => (0x3fffd5, 22),
        135 => (0x7fffd9, 23),
        136 => (0x3fffd6, 22),
        137 => (0x7fffda, 23),
        138 => (0x7fffdb, 23),
        139 => (0x7fffdc, 23),
        140 => (0x7fffdd, 23),
        141 => (0x7fffde, 23),
        142 => (0xffffeb, 24),
        143 => (0x7fffdf, 23),
        144 => (0xffffec, 24),
        145 => (0xffffed, 24),
        146 => (0x3fffd7, 22),
        147 => (0x7fffe0, 23),
        148 => (0xffffee, 24),
        149 => (0x7fffe1, 23),
        150 => (0x7fffe2, 23),
        151 => (0x7fffe3, 23),
        152 => (0x7fffe4, 23),
        153 => (0x1fffdc, 21),
        154 => (0x3fffd8, 22),
        155 => (0x7fffe5, 23),
        156 => (0x3fffd9, 22),
        157 => (0x7fffe6, 23),
        158 => (0x7fffe7, 23),
        159 => (0xffffef, 24),
        160 => (0x3fffda, 22),
        161 => (0x1fffdd, 21),
        162 => (0xfffe9, 20),
        163 => (0x3fffdb, 22),
        164 => (0x3fffdc, 22),
        165 => (0x7fffe8, 23),
        166 => (0x7fffe9, 23),
        167 => (0x1fffde, 21),
        168 => (0x7fffea, 23),
        169 => (0x3fffdd, 22),
        170 => (0x3fffde, 22),
        171 => (0xfffff0, 24),
        172 => (0x1fffdf, 21),
        173 => (0x3fffdf, 22),
        174 => (0x7fffeb, 23),
        175 => (0x7fffec, 23),
        176 => (0x1fffe0, 21),
        177 => (0x1fffe1, 21),
        178 => (0x3fffe0, 22),
        179 => (0x1fffe2, 21),
        180 => (0x7fffed, 23),
        181 => (0x3fffe1, 22),
        182 => (0x7fffee, 23),
        183 => (0x7fffef, 23),
        184 => (0xfffea, 20),
        185 => (0x3fffe2, 22),
        186 => (0x3fffe3, 22),
        187 => (0x3fffe4, 22),
        188 => (0x7ffff0, 23),
        189 => (0x3fffe5, 22),
        190 => (0x3fffe6, 22),
        191 => (0x7ffff1, 23),
        192 => (0x3ffffe0, 26),
        193 => (0x3ffffe1, 26),
        194 => (0xfffeb, 20),
        195 => (0x7fff1, 19),
        196 => (0x3fffe7, 22),
        197 => (0x7ffff2, 23),
        198 => (0x3fffe8, 22),
        199 => (0x1ffffec, 25),
        200 => (0x3ffffe2, 26),
        201 => (0x3ffffe3, 26),
        202 => (0x3ffffe4, 26),
        203 => (0x7ffffde, 27),
        204 => (0x7ffffdf, 27),
        205 => (0x3ffffe5, 26),
        206 => (0xfffff1, 24),
        207 => (0x1ffffed, 25),
        208 => (0x7fff2, 19),
        209 => (0x1fffe3, 21),
        210 => (0x3ffffe6, 26),
        211 => (0x7ffffe0, 27),
        212 => (0x7ffffe1, 27),
        213 => (0x3ffffe7, 26),
        214 => (0x7ffffe2, 27),
        215 => (0xfffff2, 24),
        216 => (0x1fffe4, 21),
        217 => (0x1fffe5, 21),
        218 => (0x3ffffe8, 26),
        219 => (0x3ffffe9, 26),
        220 => (0xffffffd, 28),
        221 => (0x7ffffe3, 27),
        222 => (0x7ffffe4, 27),
        223 => (0x7ffffe5, 27),
        224 => (0xfffec, 20),
        225 => (0xfffff3, 24),
        226 => (0xfffed, 20),
        227 => (0x1fffe6, 21),
        228 => (0x3fffe9, 22),
        229 => (0x1fffe7, 21),
        230 => (0x1fffe8, 21),
        231 => (0x7ffff3, 23),
        232 => (0x3fffea, 22),
        233 => (0x3fffeb, 22),
        234 => (0x1ffffee, 25),
        235 => (0x1ffffef, 25),
        236 => (0xfffff4, 24),
        237 => (0xfffff5, 24),
        238 => (0x3ffffea, 26),
        239 => (0x7ffff4, 23),
        240 => (0x3ffffeb, 26),
        241 => (0x7ffffe6, 27),
        242 => (0x3ffffec, 26),
        243 => (0x3ffffed, 26),
        244 => (0x7ffffe7, 27),
        245 => (0x7ffffe8, 27),
        246 => (0x7ffffe9, 27),
        247 => (0x7ffffea, 27),
        248 => (0x7ffffeb, 27),
        249 => (0xffffffe, 28),
        250 => (0x7ffffec, 27),
        251 => (0x7ffffed, 27),
        252 => (0x7ffffee, 27),
        253 => (0x7ffffef, 27),
        254 => (0x7fffff0, 27),
        255 => (0x3ffffee, 26),
        _ => (0x3fffffff, 30),
    }
}

proof fn lemma_code_order_inverse_0(x: u16)
    requires
        0 <= x < 32,
    ensures
        code_order_of(x) <= 256 && symbol_in_code_order(code_order_of(x)) == x && 5 <= code_of(x).1 <= 30,
{
    lemma2_to64();
    if x == 0 {
        } else if x == 1 {
        } else if x == 2 {
        } else if x == 3 {
        } else if x == 4 {
        } else if x == 5 {
        } else if x == 6 {
        } else if x == 7 {
        } else if x == 8 {
        } else if x == 9 {
        } else if x == 10 {
        } else if x == 11 {
        } else if x == 12 {
        } else if x == 13 {
        } else if x == 14 {
        } else if x == 15 {
        } else if x == 16 {
        } else if x == 17 {
        } else if x == 18 {
        } else if x == 19 {
        } else if x == 20 {
        } else if x == 21 {
        } else if x == 22 {
        } else if x == 23 {
        } else if x == 24 {
        } else if x == 25 {
        } else if x == 26 {
        } else if x == 27 {
        } else if x == 28 {
        } else if x == 29 {
        } else if x == 30 {
        } else if x == 31 {
        }
}

proof fn lemma_code_order_inverse_32(x: u16)
    requires
        32 <= x < 64,
    ensures
        code_order_of(x) <= 256 && symbol_in_code_order(code_order_of(x)) == x && 5 <= code_of(x).1 <= 30,
{
    lemma2_to64();
    if x == 32 {
        } else if x == 33 {
        } else if x == 34 {
        } else if x == 35 {
        } else if x == 36 {
        } else if x == 37 {
        } else if x == 38 {
        } else if x == 39 {
        } else if x == 40 {
        } else if x == 41 {
        } else if x == 42 {
        } else if x == 43 {
        } else if x == 44 {
        } else if x == 45 {
        } else if x == 46 {
        } else if x == 47 {
        } else if x == 48 {
        } else if x == 49 {
        } else if x == 50 {
        } else if x == 51 {
        } else if x == 52 {
        } else if x == 53 {
        } else if x == 54 {
        } else if x == 55 {
        } else if x == 56 {
        } else if x == 57 {
        } else if x == 58 {
        } else if x == 59 {
        } else if x == 60 {
        } else if x == 61 {
        } else if x == 62 {
        } else if x == 63 {
        }
}

proof fn lemma_code_order_inverse_64(x: u16)
    requires
        64 <= x < 96,
    ensures
        code_order_of(x) <= 256 && symbol_in_code_order(code_order_of(x)) == x && 5 <= code_of(x).1 <= 30,
{
    lemma2_to64();
    if x == 64 {
        } else if x == 65 {
        } else if x == 66 {
        } else if x == 67 {
        } else if x == 68 {
        } else if x == 69 {
        } else if x == 70 {
        } else if x == 71 {
        } else if x == 72 {
        } else if x == 73 {
        } else if x == 74 {
        } else if x == 75 {
        } else if x == 76 {
        } else if x == 77 {
        } else if x == 78 {
        } else if x == 79 {
        } else if x == 80 {
        } else if x == 81 {
        } else if x == 82 {
        } else if x == 83 {
        } else if x == 84 {
        } else if x == 85 {
        } else if x == 86 {
        } else if x == 87 {
        } else if x == 88 {
        } else if x == 89 {
        } else if x == 90 {
        } else if x == 91 {
        } else if x == 92 {
        } else if x == 93 {
        } else if x == 94 {
        } else if x == 95 {
        }
}

proof fn lemma_code_order_inverse_96(x: u16)
    requires
        96 <= x < 128,
    ensures
        code_order_of(x) <= 256 && symbol_in_code_order(code_order_of(x)) == x && 5 <= code_of(x).1 <= 30,
{
    lemma2_to64();
    if x == 96 {
        } else if x == 97 {
        } else if x == 98 {
        } else if x == 99 {
        } else if x == 100 {
        } else if x == 101 {
        } else if x == 102 {
        } else if x == 103 {
        } else if x == 104 {
        } else if x == 105 {
        } else if x == 106 {
        } else if x == 107 {
        } else if x == 108 {
        } else if x == 109 {
        } else if x == 110 {
        } else if x == 111 {
        } else if x == 112 {
        } else if x == 113 {
        } else if x == 114 {
        } else if x == 115 {
        } else if x == 116 {
        } else if x == 117 {
        } else if x == 118 {
        } else if x == 119 {
        } else if x == 120 {
        } else if x == 121 {
        } else if x == 122 {
        } else if x == 123 {
        } else if x == 124 {
        } else if x == 125 {
        } else if x == 126 {
        } else if x == 127 {
        }
}

proof fn lemma_code_order_inverse_128(x: u16)
    requires
        128 <= x < 160,
    ensures
        code_order_of(x) <= 256 && symbol_in_code_order(code_order_of(x)) == x && 5 <= code_of(x).1 <= 30,
{
    lemma2_to64();
    if x == 128 {
        } else if x == 129 {
        } else if x == 130 {
        } else if x == 131 {
        } else if x == 132 {
        } else if x == 133 {
        } else if x == 134 {
        } else if x == 135 {
        } else if x == 136 {
        } else if x == 137 {
        } else if x == 138 {
        } else if x == 139 {
        } else if x == 140 {
        } else if x == 141 {
        } else if x == 142 {
        } else if x == 143 {
        } else if x == 144 {
        } else if x == 145 {
        } else if x == 146 {
        } else if x == 147 {
        } else if x == 148 {
        } else if x == 149 {
        } else if x == 150 {
        } else if x == 151 {
        } else if x == 152 {
        } else if x == 153 {
        } else if x == 154 {
        } else if x == 155 {
        } else if x == 156 {
        } else if x == 157 {
        } else if x == 158 {
        } else if x == 159 {
        }
}

proof fn lemma_code_order_inverse_160(x: u16)
    requires
        160 <= x < 192,
    ensures
        code_order_of(x) <= 256 && symbol_in_code_order(code_order_of(x)) == x && 5 <= code_of(x).1 <= 30,
{
    lemma2_to64();
    if x == 160 {
        } else if x == 161 {
        } else if x == 162 {
        } else if x == 163 {
        } else if x == 164 {
        } else if x == 165 {
        } else if x == 166 {
        } else if x == 167 {
        } else if x == 168 {
        } else if x == 169 {
        } else if x == 170 {
        } else if x == 171 {
        } else if x == 172 {
        } else if x == 173 {
        } else if x == 174 {
        } else if x == 175 {
        } else if x == 176 {
        } else if x == 177 {
        } else if x == 178 {
        } else if x == 179 {
        } else if x == 180 {
        } else if x == 181 {
        } else if x == 182 {
        } else if x == 183 {
        } else if x == 184 {
        } else if x == 185 {
        } else if x == 186 {
        } else if x == 187 {
        } else if x == 188 {
        } else if x == 189 {
        } else if x == 190 {
        } else if x == 191 {
        }
}

proof fn lemma_code_order_inverse_192(x: u16)
    requires
        192 <= x < 224,
    ensures
        code_order_of(x) <= 256 && symbol_in_code_order(code_order_of(x)) == x && 5 <= code_of(x).1 <= 30,
{
    lemma2_to64();
    if x == 192 {
        } else if x == 193 {
        } else if x == 194 {
        } else if x == 195 {
        } else if x == 196 {
        } else if x == 197 {
        } else if x == 198 {
        } else if x == 199 {
        } else if x == 200 {
        } else if x == 201 {
        } else if x == 202 {
        } else if x == 203 {
        } else if x == 204 {
        } else if x == 205 {
        } else if x == 206 {
        } else if x == 207 {
        } else if x == 208 {
        } else if x == 209 {
        } else if x == 210 {
        } else if x == 211 {
        } else if x == 212 {
        } else if x == 213 {
        } else if x == 214 {
        } else if x == 215 {
        } else if x == 216 {
        } else if x == 217 {
        } else if x == 218 {
        } else if x == 219 {
        } else if x == 220 {
        } else if x == 221 {
        } else if x == 222 {
        } else if x == 223 {
        }
}

proof fn lemma_code_order_inverse_224(x: u16)
    requires
        224 <= x < 256,
    ensures
        code_order_of(x) <= 256 && symbol_in_code_order(code_order_of(x)) == x && 5 <= code_of(x).1 <= 30,
{
    lemma2_to64();
    if x == 224 {
        } else if x == 225 {
        } else if x == 226 {
        } else if x == 227 {
        } else if x == 228 {
        } else if x == 229 {
        } else if x == 230 {
        } else if x == 231 {
        } else if x == 232 {
        } else if x == 233 {
        } else if x == 234 {
        } else if x == 235 {
        } else if x == 236 {
        } else if x == 237 {
        } else if x == 238 {
        } else if x == 239 {
        } else if x == 240 {
        } else if x == 241 {
        } else if x == 242 {
        } else if x == 243 {
        } else if x == 244 {
        } else if x == 245 {
        } else if x == 246 {
        } else if x == 247 {
        } else if x == 248 {
        } else if x == 249 {
        } else if x == 250 {
        } else if x == 251 {
        } else if x == 252 {
        } else if x == 253 {
        } else if x == 254 {
        } else if x == 255 {
        }
}

proof fn lemma_code_order_inverse_256(x: u16)
    requires
        256 <= x < 257,
    ensures
        code_order_of(x) <= 256 && symbol_in_code_order(code_order_of(x)) == x && 5 <= code_of(x).1 <= 30,
{
    lemma2_to64();
    if x == 256 {
        }
}

proof fn lemma_code_order_adjacent_0(x: u16)
    requires
        0 <= x < 16,
    ensures
        interval_lo(symbol_in_code_order(x)) + interval_width(symbol_in_code_order(x)) == interval_lo(symbol_in_code_order((x + 1) as u16)),
{
    lemma2_to64();
    if x == 0 {
            assert(code_of(48) == (0x0u32, 5u8));
            assert(code_of(49) == (0x1u32, 5u8));
            assert(symbol_in_code_order(0) == 48);
            assert(symbol_in_code_order(1) == 49);
            assert(interval_lo(48) == 0x0);
            assert(interval_width(48) == 0x2000000);
            assert(interval_lo(49) == 0x2000000);
        } else if x == 1 {
            assert(code_of(49) == (0x1u32, 5u8));
            assert(code_of(50) == (0x2u32, 5u8));
            assert(symbol_in_code_order(1) == 49);
            assert(symbol_in_code_order(2) == 50);
            assert(interval_lo(49) == 0x2000000);
            assert(interval_width(49) == 0x2000000);
            assert(interval_lo(50) == 0x4000000);
        } else if x == 2 {
            assert(code_of(50) == (0x2u32, 5u8));
            assert(code_of(97) == (0x3u32, 5u8));
            assert(symbol_in_code_order(2) == 50);
            assert(symbol_in_code_order(3) == 97);
            assert(interval_lo(50) == 0x4000000);
            assert(interval_width(50) == 0x2000000);
            assert(interval_lo(97) == 0x6000000);
        } else if x == 3 {
            assert(code_of(97) == (0x3u32, 5u8));
            assert(code_of(99) == (0x4u32, 5u8));
            assert(symbol_in_code_order(3) == 97);
            assert(symbol_in_code_order(4) == 99);
            assert(interval_lo(97) == 0x6000000);
            assert(interval_width(97) == 0x2000000);
            assert(interval_lo(99) == 0x8000000);
        } else if x == 4 {
            assert(code_of(99) == (0x4u32, 5u8));
            assert(code_of(101) == (0x5u32, 5u8));
            assert(symbol_in_code_order(4) == 99);
            assert(symbol_in_code_order(5) == 101);
            assert(interval_lo(99) == 0x8000000);
            assert(interval_width(99) == 0x2000000);
            assert(interval_lo(101) == 0xa000000);
        } else if x == 5 {
            assert(code_of(101) == (0x5u32, 5u8));
            assert(code_of(105) == (0x6u32, 5u8));
            assert(symbol_in_code_order(5) == 101);
            assert(symbol_in_code_order(6) == 105);
            assert(interval_lo(101) == 0xa000000);
            assert(interval_width(101) == 0x2000000);
            assert(interval_lo(105) == 0xc000000);
        } else if x == 6 {
            assert(code_of(105) == (0x6u32, 5u8));
            assert(code_of(111) == (0x7u32, 5u8));
            assert(symbol_in_code_order(6) == 105);
            assert(symbol_in_code_order(7) == 111);
            assert(interval_lo(105) == 0xc000000);
            assert(interval_width(105) == 0x2000000);
            assert(interval_lo(111) == 0xe000000);
        } else if x == 7 {
            assert(code_of(111) == (0x7u32, 5u8));
            assert(code_of(115) == (0x8u32, 5u8));
            assert(symbol_in_code_order(7) == 111);
            assert(symbol_in_code_order(8) == 115);
            assert(interval_lo(111) == 0xe000000);
            assert(interval_width(111) == 0x2000000);
            assert(interval_lo(115) == 0x10000000);
        } else if x == 8 {
            assert(code_of(115) == (0x8u32, 5u8));
            assert(code_of(116) == (0x9u32, 5u8));
            assert(symbol_in_code_order(8) == 115);
            assert(symbol_in_code_order(9) == 116);
            assert(interval_lo(115) == 0x10000000);
            assert(interval_width(115) == 0x2000000);
            assert(interval_lo(116) == 0x12000000);
        } else if x == 9 {
            assert(code_of(116) == (0x9u32, 5u8));
            assert(code_of(32) == (0x14u32, 6u8));
            assert(symbol_in_code_order(9) == 116);
            assert(symbol_in_code_order(10) == 32);
            assert(interval_lo(116) == 0x12000000);
            assert(interval_width(116) == 0x2000000);
            assert(interval_lo(32) == 0x14000000);
        } else if x == 10 {
            assert(code_of(32) == (0x14u32, 6u8));
            assert(code_of(37) == (0x15u32, 6u8));
            assert(symbol_in_code_order(10) == 32);
            assert(symbol_in_code_order(11) == 37);
            assert(interval_lo(32) == 0x14000000);
            assert(interval_width(32) == 0x1000000);
            assert(interval_lo(37) == 0x15000000);
        } else if x == 11 {
            assert(code_of(37) == (0x15u32, 6u8));
            assert(code_of(45) == (0x16u32, 6u8));
            assert(symbol_in_code_order(11) == 37);
            assert(symbol_in_code_order(12) == 45);
            assert(interval_lo(37) == 0x15000000);
            assert(interval_width(37) == 0x1000000);
            assert(interval_lo(45) == 0x16000000);
        } else if x == 12 {
            assert(code_of(45) == (0x16u32, 6u8));
            assert(code_of(46) == (0x17u32, 6u8));
            assert(symbol_in_code_order(12) == 45);
            assert(symbol_in_code_order(13) == 46);
            assert(interval_lo(45) == 0x16000000);
            assert(interval_width(45) == 0x1000000);
            assert(interval_lo(46) == 0x17000000);
        } else if x == 13 {
            assert(code_of(46) == (0x17u32, 6u8));
            assert(code_of(47) == (0x18u32, 6u8));
            assert(symbol_in_code_order(13) == 46);
            assert(symbol_in_code_order(14) == 47);
            assert(interval_lo(46) == 0x17000000);
            assert(interval_width(46) == 0x1000000);
            assert(interval_lo(47) == 0x18000000);
        } else if x == 14 {
            assert(code_of(47) == (0x18u32, 6u8));
            assert(code_of(51) == (0x19u32, 6u8));
            assert(symbol_in_code_order(14) == 47);
            assert(symbol_in_code_order(15) == 51);
            assert(interval_lo(47) == 0x18000000);
            assert(interval_width(47) == 0x1000000);
            assert(interval_lo(51) == 0x19000000);
        } else if x == 15 {
            assert(code_of(51) == (0x19u32, 6u8));
            assert(code_of(52) == (0x1au32, 6u8));
            assert(symbol_in_code_order(15) == 51);
            assert(symbol_in_code_order(16) == 52);
            assert(interval_lo(51) == 0x19000000);
            assert(interval_width(51) == 0x1000000);
            assert(interval_lo(52) == 0x1a000000);
        }
}

proof fn lemma_code_order_adjacent_16(x: u16)
    requires
        16 <= x < 32,
    ensures
        interval_lo(symbol_in_code_order(x)) + interval_width(symbol_in_code_order(x)) == interval_lo(symbol_in_code_order((x + 1) as u16)),
{
    lemma2_to64();
    if x == 16 {
            assert(code_of(52) == (0x1au32, 6u8));
            assert(code_of(53) == (0x1bu32, 6u8));
            assert(symbol_in_code_order(16) == 52);
            assert(symbol_in_code_order(17) == 53);
            assert(interval_lo(52) == 0x1a000000);
            assert(interval_width(52) == 0x1000000);
            assert(interval_lo(53) == 0x1b000000);
        } else if x == 17 {
            assert(code_of(53) == (0x1bu32, 6u8));
            assert(code_of(54) == (0x1cu32, 6u8));
            assert(symbol_in_code_order(17) == 53);
            assert(symbol_in_code_order(18) == 54);
            assert(interval_lo(53) == 0x1b000000);
            assert(interval_width(53) == 0x1000000);
            assert(interval_lo(54) == 0x1c000000);
        } else if x == 18 {
            assert(code_of(54) == (0x1cu32, 6u8));
            assert(code_of(55) == (0x1du32, 6u8));
            assert(symbol_in_code_order(18) == 54);
            assert(symbol_in_code_order(19) == 55);
            assert(interval_lo(54) == 0x1c000000);
            assert(interval_width(54) == 0x1000000);
            assert(interval_lo(55) == 0x1d000000);
        } else if x == 19 {
            assert(code_of(55) == (0x1du32, 6u8));
            assert(code_of(56) == (0x1eu32, 6u8));
            assert(symbol_in_code_order(19) == 55);
            assert(symbol_in_code_order(20) == 56);
            assert(interval_lo(55) == 0x1d000000);
            assert(interval_width(55) == 0x1000000);
            assert(interval_lo(56) == 0x1e000000);
        } else if x == 20 {
            assert(code_of(56) == (0x1eu32, 6u8));
            assert(code_of(57) == (0x1fu32, 6u8));
            assert(symbol_in_code_order(20) == 56);
            assert(symbol_in_code_order(21) == 57);
            assert(interval_lo(56) == 0x1e000000);
            assert(interval_width(56) == 0x1000000);
            assert(interval_lo(57) == 0x1f000000);
        } else if x == 21 {
            assert(code_of(57) == (0x1fu32, 6u8));
            assert(code_of(61) == (0x20u32, 6u8));
            assert(symbol_in_code_order(21) == 57);
            assert(symbol_in_code_order(22) == 61);
            assert(interval_lo(57) == 0x1f000000);
            assert(interval_width(57) == 0x1000000);
            assert(interval_lo(61) == 0x20000000);
        } else if x == 22 {
            assert(code_of(61) == (0x20u32, 6u8));
            assert(code_of(65) == (0x21u32, 6u8));
            assert(symbol_in_code_order(22) == 61);
            assert(symbol_in_code_order(23) == 65);
            assert(interval_lo(61) == 0x20000000);
            assert(interval_width(61) == 0x1000000);
            assert(interval_lo(65) == 0x21000000);
        } else if x == 23 {
            assert(code_of(65) == (0x21u32, 6u8));
            assert(code_of(95) == (0x22u32, 6u8));
            assert(symbol_in_code_order(23) == 65);
            assert(symbol_in_code_order(24) == 95);
            assert(interval_lo(65) == 0x21000000);
            assert(interval_width(65) == 0x1000000);
            assert(interval_lo(95) == 0x22000000);
        } else if x == 24 {
            assert(code_of(95) == (0x22u32, 6u8));
            assert(code_of(98) == (0x23u32, 6u8));
            assert(symbol_in_code_order(24) == 95);
            assert(symbol_in_code_order(25) == 98);
            assert(interval_lo(95) == 0x22000000);
            assert(interval_width(95) == 0x1000000);
            assert(interval_lo(98) == 0x23000000);
        } else if x == 25 {
            assert(code_of(98) == (0x23u32, 6u8));
            assert(code_of(100) == (0x24u32, 6u8));
            assert(symbol_in_code_order(25) == 98);
            assert(symbol_in_code_order(26) == 100);
            assert(interval_lo(98) == 0x23000000);
            assert(interval_width(98) == 0x1000000);
            assert(interval_lo(100) == 0x24000000);
        } else if x == 26 {
            assert(code_of(100) == (0x24u32, 6u8));
            assert(code_of(102) == (0x25u32, 6u8));
            assert(symbol_in_code_order(26) == 100);
            assert(symbol_in_code_order(27) == 102);
            assert(interval_lo(100) == 0x24000000);
            assert(interval_width(100) == 0x1000000);
            assert(interval_lo(102) == 0x25000000);
        } else if x == 27 {
            assert(code_of(102) == (0x25u32, 6u8));
            assert(code_of(103) == (0x26u32, 6u8));
            assert(symbol_in_code_order(27) == 102);
            assert(symbol_in_code_order(28) == 103);
            assert(interval_lo(102) == 0x25000000);
            assert(interval_width(102) == 0x1000000);
            assert(interval_lo(103) == 0x26000000);
        } else if x == 28 {
            assert(code_of(103) == (0x26u32, 6u8));
            assert(code_of(104) == (0x27u32, 6u8));
            assert(symbol_in_code_order(28) == 103);
            assert(symbol_in_code_order(29) == 104);
            assert(interval_lo(103) == 0x26000000);
            assert(interval_width(103) == 0x1000000);
            assert(interval_lo(104) == 0x27000000);
        } else if x == 29 {
            assert(code_of(104) == (0x27u32, 6u8));
            assert(code_of(108) == (0x28u32, 6u8));
            assert(symbol_in_code_order(29) == 104);
            assert(symbol_in_code_order(30) == 108);
            assert(interval_lo(104) == 0x27000000);
            assert(interval_width(104) == 0x1000000);
            assert(interval_lo(108) == 0x28000000);
        } else if x == 30 {
            assert(code_of(108) == (0x28u32, 6u8));
            assert(code_of(109) == (0x29u32, 6u8));
            assert(symbol_in_code_order(30) == 108);
            assert(symbol_in_code_order(31) == 109);
            assert(interval_lo(108) == 0x28000000);
            assert(interval_width(108) == 0x1000000);
            assert(interval_lo(109) == 0x29000000);
        } else if x == 31 {
            assert(code_of(109) == (0x29u32, 6u8));
            assert(code_of(110) == (0x2au32, 6u8));
            assert(symbol_in_code_order(31) == 109);
            assert(symbol_in_code_order(32) == 110);
            assert(interval_lo(109) == 0x29000000);
            assert(interval_width(109) == 0x1000000);
            assert(interval_lo(110) == 0x2a000000);
        }
}

proof fn lemma_code_order_adjacent_32(x: u16)
    requires
        32 <= x < 48,
    ensures
        interval_lo(symbol_in_code_order(x)) + interval_width(symbol_in_code_order(x)) == interval_lo(symbol_in_code_order((x + 1) as u16)),
{
    lemma2_to64();
    if x == 32 {
            assert(code_of(110) == (0x2au32, 6u8));
            assert(code_of(112) == (0x2bu32, 6u8));
            assert(symbol_in_code_order(32) == 110);
            assert(symbol_in_code_order(33) == 112);
            assert(interval_lo(110) == 0x2a000000);
            assert(interval_width(110) == 0x1000000);
            assert(interval_lo(112) == 0x2b000000);
        } else if x == 33 {
            assert(code_of(112) == (0x2bu32, 6u8));
            assert(code_of(114) == (0x2cu32, 6u8));
            assert(symbol_in_code_order(33) == 112);
            assert(symbol_in_code_order(34) == 114);
            assert(interval_lo(112) == 0x2b000000);
            assert(interval_width(112) == 0x1000000);
            assert(interval_lo(114) == 0x2c000000);
        } else if x == 34 {
            assert(code_of(114) == (0x2cu32, 6u8));
            assert(code_of(117) == (0x2du32, 6u8));
            assert(symbol_in_code_order(34) == 114);
            assert(symbol_in_code_order(35) == 117);
            assert(interval_lo(114) == 0x2c000000);
            assert(interval_width(114) == 0x1000000);
            assert(interval_lo(117) == 0x2d000000);
        } else if x == 35 {
            assert(code_of(117) == (0x2du32, 6u8));
            assert(code_of(58) == (0x5cu32, 7u8));
            assert(symbol_in_code_order(35) == 117);
            assert(symbol_in_code_order(36) == 58);
            assert(interval_lo(117) == 0x2d000000);
            assert(interval_width(117) == 0x1000000);
            assert(interval_lo(58) == 0x2e000000);
        } else if x == 36 {
            assert(code_of(58) == (0x5cu32, 7u8));
            assert(code_of(66) == (0x5du32, 7u8));
            assert(symbol_in_code_order(36) == 58);
            assert(symbol_in_code_order(37) == 66);
            assert(interval_lo(58) == 0x2e000000);
            assert(interval_width(58) == 0x800000);
            assert(interval_lo(66) == 0x2e800000);
        } else if x == 37 {
            assert(code_of(66) == (0x5du32, 7u8));
            assert(code_of(67) == (0x5eu32, 7u8));
            assert(symbol_in_code_order(37) == 66);
            assert(symbol_in_code_order(38) == 67);
            assert(interval_lo(66) == 0x2e800000);
            assert(interval_width(66) == 0x800000);
            assert(interval_lo(67) == 0x2f000000);
        } else if x == 38 {
            assert(code_of(67) == (0x5eu32, 7u8));
            assert(code_of(68) == (0x5fu32, 7u8));
            assert(symbol_in_code_order(38) == 67);
            assert(symbol_in_code_order(39) == 68);
            assert(interval_lo(67) == 0x2f000000);
            assert(interval_width(67) == 0x800000);
            assert(interval_lo(68) == 0x2f800000);
        } else if x == 39 {
            assert(code_of(68) == (0x5fu32, 7u8));
            assert(code_of(69) == (0x60u32, 7u8));
            assert(symbol_in_code_order(39) == 68);
            assert(symbol_in_code_order(40) == 69);
            assert(interval_lo(68) == 0x2f800000);
            assert(interval_width(68) == 0x800000);
            assert(interval_lo(69) == 0x30000000);
        } else if x == 40 {
            assert(code_of(69) == (0x60u32, 7u8));
            assert(code_of(70) == (0x61u32, 7u8));
            assert(symbol_in_code_order(40) == 69);
            assert(symbol_in_code_order(41) == 70);
            assert(interval_lo(69) == 0x30000000);
            assert(interval_width(69) == 0x800000);
            assert(interval_lo(70) == 0x30800000);
        } else if x == 41 {
            assert(code_of(70) == (0x61u32, 7u8));
            assert(code_of(71) == (0x62u32, 7u8));
            assert(symbol_in_code_order(41) == 70);
            assert(symbol_in_code_order(42) == 71);
            assert(interval_lo(70) == 0x30800000);
            assert(interval_width(70) == 0x800000);
            assert(interval_lo(71) == 0x31000000);
        } else if x == 42 {
            assert(code_of(71) == (0x62u32, 7u8));
            assert(code_of(72) == (0x63u32, 7u8));
            assert(symbol_in_code_order(42) == 71);
            assert(symbol_in_code_order(43) == 72);
            assert(interval_lo(71) == 0x31000000);
            assert(interval_width(71) == 0x800000);
            assert(interval_lo(72) == 0x31800000);
        } else if x == 43 {
            assert(code_of(72) == (0x63u32, 7u8));
            assert(code_of(73) == (0x64u32, 7u8));
            assert(symbol_in_code_order(43) == 72);
            assert(symbol_in_code_order(44) == 73);
            assert(interval_lo(72) == 0x31800000);
            assert(interval_width(72) == 0x800000);
            assert(interval_lo(73) == 0x32000000);
        } else if x == 44 {
            assert(code_of(73) == (0x64u32, 7u8));
            assert(code_of(74) == (0x65u32, 7u8));
            assert(symbol_in_code_order(44) == 73);
            assert(symbol_in_code_order(45) == 74);
            assert(interval_lo(73) == 0x32000000);
            assert(interval_width(73) == 0x800000);
            assert(interval_lo(74) == 0x32800000);
        } else if x == 45 {
            assert(code_of(74) == (0x65u32, 7u8));
            assert(code_of(75) == (0x66u32, 7u8));
            assert(symbol_in_code_order(45) == 74);
            assert(symbol_in_code_order(46) == 75);
            assert(interval_lo(74) == 0x32800000);
            assert(interval_width(74) == 0x800000);
            assert(interval_lo(75) == 0x33000000);
        } else if x == 46 {
            assert(code_of(75) == (0x66u32, 7u8));
            assert(code_of(76) == (0x67u32, 7u8));
            assert(symbol_in_code_order(46) == 75);
            assert(symbol_in_code_order(47) == 76);
            assert(interval_lo(75) == 0x33000000);
            assert(interval_width(75) == 0x800000);
            assert(interval_lo(76) == 0x33800000);
        } else if x == 47 {
            assert(code_of(76) == (0x67u32, 7u8));
            assert(code_of(77) == (0x68u32, 7u8));
            assert(symbol_in_code_order(47) == 76);
            assert(symbol_in_code_order(48) == 77);
            assert(interval_lo(76) == 0x33800000);
            assert(interval_width(76) == 0x800000);
            assert(interval_lo(77) == 0x34000000);
        }
}

proof fn lemma_code_order_adjacent_48(x: u16)
    requires
        48 <= x < 64,
    ensures
        interval_lo(symbol_in_code_order(x)) + interval_width(symbol_in_code_order(x)) == interval_lo(symbol_in_code_order((x + 1) as u16)),
{
    lemma2_to64();
    if x == 48 {
            assert(code_of(77) == (0x68u32, 7u8));
            assert(code_of(78) == (0x69u32, 7u8));
            assert(symbol_in_code_order(48) == 77);
            assert(symbol_in_code_order(49) == 78);
            assert(interval_lo(77) == 0x34000000);
            assert(interval_width(77) == 0x800000);
            assert(interval_lo(78) == 0x34800000);
        } else if x == 49 {
            assert(code_of(78) == (0x69u32, 7u8));
            assert(code_of(79) == (0x6au32, 7u8));
            assert(symbol_in_code_order(49) == 78);
            assert(symbol_in_code_order(50) == 79);
            assert(interval_lo(78) == 0x34800000);
            assert(interval_width(78) == 0x800000);
            assert(interval_lo(79) == 0x35000000);
        } else if x == 50 {
            assert(code_of(79) == (0x6au32, 7u8));
            assert(code_of(80) == (0x6bu32, 7u8));
            assert(symbol_in_code_order(50) == 79);
            assert(symbol_in_code_order(51) == 80);
            assert(interval_lo(79) == 0x35000000);
            assert(interval_width(79) == 0x800000);
            assert(interval_lo(80) == 0x35800000);
        } else if x == 51 {
            assert(code_of(80) == (0x6bu32, 7u8));
            assert(code_of(81) == (0x6cu32, 7u8));
            assert(symbol_in_code_order(51) == 80);
            assert(symbol_in_code_order(52) == 81);
            assert(interval_lo(80) == 0x35800000);
            assert(interval_width(80) == 0x800000);
            assert(interval_lo(81) == 0x36000000);
        } else if x == 52 {
            assert(code_of(81) == (0x6cu32, 7u8));
            assert(code_of(82) == (0x6du32, 7u8));
            assert(symbol_in_code_order(52) == 81);
            assert(symbol_in_code_order(53) == 82);
            assert(interval_lo(81) == 0x36000000);
            assert(interval_width(81) == 0x800000);
            assert(interval_lo(82) == 0x36800000);
        } else if x == 53 {
            assert(code_of(82) == (0x6du32, 7u8));
            assert(code_of(83) == (0x6eu32, 7u8));
            assert(symbol_in_code_order(53) == 82);
            assert(symbol_in_code_order(54) == 83);
            assert(interval_lo(82) == 0x36800000);
            assert(interval_width(82) == 0x800000);
            assert(interval_lo(83) == 0x37000000);
        } else if x == 54 {
            assert(code_of(83) == (0x6eu32, 7u8));
            assert(code_of(84) == (0x6fu32, 7u8));
            assert(symbol_in_code_order(54) == 83);
            assert(symbol_in_code_order(55) == 84);
            assert(interval_lo(83) == 0x37000000);
            assert(interval_width(83) == 0x800000);
            assert(interval_lo(84) == 0x37800000);
        } else if x == 55 {
            assert(code_of(84) == (0x6fu32, 7u8));
            assert(code_of(85) == (0x70u32, 7u8));
            assert(symbol_in_code_order(55) == 84);
            assert(symbol_in_code_order(56) == 85);
            assert(interval_lo(84) == 0x37800000);
            assert(interval_width(84) == 0x800000);
            assert(interval_lo(85) == 0x38000000);
        } else if x == 56 {
            assert(code_of(85) == (0x70u32, 7u8));
            assert(code_of(86) == (0x71u32, 7u8));
            assert(symbol_in_code_order(56) == 85);
            assert(symbol_in_code_order(57) == 86);
            assert(interval_lo(85) == 0x38000000);
            assert(interval_width(85) == 0x800000);
            assert(interval_lo(86) == 0x38800000);
        } else if x == 57 {
            assert(code_of(86) == (0x71u32, 7u8));
            assert(code_of(87) == (0x72u32, 7u8));
            assert(symbol_in_code_order(57) == 86);
            assert(symbol_in_code_order(58) == 87);
            assert(interval_lo(86) == 0x38800000);
            assert(interval_width(86) == 0x800000);
            assert(interval_lo(87) == 0x39000000);
        } else if x == 58 {
            assert(code_of(87) == (0x72u32, 7u8));
            assert(code_of(89) == (0x73u32, 7u8));
            assert(symbol_in_code_order(58) == 87);
            assert(symbol_in_code_order(59) == 89);
            assert(interval_lo(87) == 0x39000000);
            assert(interval_width(87) == 0x800000);
            assert(interval_lo(89) == 0x39800000);
        } else if x == 59 {
            assert(code_of(89) == (0x73u32, 7u8));
            assert(code_of(106) == (0x74u32, 7u8));
            assert(symbol_in_code_order(59) == 89);
            assert(symbol_in_code_order(60) == 106);
            assert(interval_lo(89) == 0x39800000);
            assert(interval_width(89) == 0x800000);
            assert(interval_lo(106) == 0x3a000000);
        } else if x == 60 {
            assert(code_of(106) == (0x74u32, 7u8));
            assert(code_of(107) == (0x75u32, 7u8));
            assert(symbol_in_code_order(60) == 106);
            assert(symbol_in_code_order(61) == 107);
            assert(interval_lo(106) == 0x3a000000);
            assert(interval_width(106) == 0x800000);
            assert(interval_lo(107) == 0x3a800000);
        } else if x == 61 {
            assert(code_of(107) == (0x75u32, 7u8));
            assert(code_of(113) == (0x76u32, 7u8));
            assert(symbol_in_code_order(61) == 107);
            assert(symbol_in_code_order(62) == 113);
            assert(interval_lo(107) == 0x3a800000);
            assert(interval_width(107) == 0x800000);
            assert(interval_lo(113) == 0x3b000000);
        } else if x == 62 {
            assert(code_of(113) == (0x76u32, 7u8));
            assert(code_of(118) == (0x77u32, 7u8));
            assert(symbol_in_code_order(62) == 113);
            assert(symbol_in_code_order(63) == 118);
            assert(interval_lo(113) == 0x3b000000);
            assert(interval_width(113) == 0x800000);
            assert(interval_lo(118) == 0x3b800000);
        } else if x == 63 {
            assert(code_of(118) == (0x77u32, 7u8));
            assert(code_of(119) == (0x78u32, 7u8));
            assert(symbol_in_code_order(63) == 118);
            assert(symbol_in_code_order(64) == 119);
            assert(interval_lo(118) == 0x3b800000);
            assert(interval_width(118) == 0x800000);
            assert(interval_lo(119) == 0x3c000000);
        }
}

proof fn lemma_code_order_adjacent_64(x: u16)
    requires
        64 <= x < 80,
    ensures
        interval_lo(symbol_in_code_order(x)) + interval_width(symbol_in_code_order(x)) == interval_lo(symbol_in_code_order((x + 1) as u16)),
{
    lemma2_to64();
    if x == 64 {
            assert(code_of(119) == (0x78u32, 7u8));
            assert(code_of(120) == (0x79u32, 7u8));
            assert(symbol_in_code_order(64) == 119);
            assert(symbol_in_code_order(65) == 120);
            assert(interval_lo(119) == 0x3c000000);
            assert(interval_width(119) == 0x800000);
            assert(interval_lo(120) == 0x3c800000);
        } else if x == 65 {
            assert(code_of(120) == (0x79u32, 7u8));
            assert(code_of(121) == (0x7au32, 7u8));
            assert(symbol_in_code_order(65) == 120);
            assert(symbol_in_code_order(66) == 121);
            assert(interval_lo(120) == 0x3c800000);
            assert(interval_width(120) == 0x800000);
            assert(interval_lo(121) == 0x3d000000);
        } else if x == 66 {
            assert(code_of(121) == (0x7au32, 7u8));
            assert(code_of(122) == (0x7bu32, 7u8));
            assert(symbol_in_code_order(66) == 121);
            assert(symbol_in_code_order(67) == 122);
            assert(interval_lo(121) == 0x3d000000);
            assert(interval_width(121) == 0x800000);
            assert(interval_lo(122) == 0x3d800000);
        } else if x == 67 {
            assert(code_of(122) == (0x7bu32, 7u8));
            assert(code_of(38) == (0xf8u32, 8u8));
            assert(symbol_in_code_order(67) == 122);
            assert(symbol_in_code_order(68) == 38);
            assert(interval_lo(122) == 0x3d800000);
            assert(interval_width(122) == 0x800000);
            assert(interval_lo(38) == 0x3e000000);
        } else if x == 68 {
            assert(code_of(38) == (0xf8u32, 8u8));
            assert(code_of(42) == (0xf9u32, 8u8));
            assert(symbol_in_code_order(68) == 38);
            assert(symbol_in_code_order(69) == 42);
            assert(interval_lo(38) == 0x3e000000);
            assert(interval_width(38) == 0x400000);
            assert(interval_lo(42) == 0x3e400000);
        } else if x == 69 {
            assert(code_of(42) == (0xf9u32, 8u8));
            assert(code_of(44) == (0xfau32, 8u8));
            assert(symbol_in_code_order(69) == 42);
            assert(symbol_in_code_order(70) == 44);
            assert(interval_lo(42) == 0x3e400000);
            assert(interval_width(42) == 0x400000);
            assert(interval_lo(44) == 0x3e800000);
        } else if x == 70 {
            assert(code_of(44) == (0xfau32, 8u8));
            assert(code_of(59) == (0xfbu32, 8u8));
            assert(symbol_in_code_order(70) == 44);
            assert(symbol_in_code_order(71) == 59);
            assert(interval_lo(44) == 0x3e800000);
            assert(interval_width(44) == 0x400000);
            assert(interval_lo(59) == 0x3ec00000);
        } else if x == 71 {
            assert(code_of(59) == (0xfbu32, 8u8));
            assert(code_of(88) == (0xfcu32, 8u8));
            assert(symbol_in_code_order(71) == 59);
            assert(symbol_in_code_order(72) == 88);
            assert(interval_lo(59) == 0x3ec00000);
            assert(interval_width(59) == 0x400000);
            assert(interval_lo(88) == 0x3f000000);
        } else if x == 72 {
            assert(code_of(88) == (0xfcu32, 8u8));
            assert(code_of(90) == (0xfdu32, 8u8));
            assert(symbol_in_code_order(72) == 88);
            assert(symbol_in_code_order(73) == 90);
            assert(interval_lo(88) == 0x3f000000);
            assert(interval_width(88) == 0x400000);
            assert(interval_lo(90) == 0x3f400000);
        } else if x == 73 {
            assert(code_of(90) == (0xfdu32, 8u8));
            assert(code_of(33) == (0x3f8u32, 10u8));
            assert(symbol_in_code_order(73) == 90);
            assert(symbol_in_code_order(74) == 33);
            assert(interval_lo(90) == 0x3f400000);
            assert(interval_width(90) == 0x400000);
            assert(interval_lo(33) == 0x3f800000);
        } else if x == 74 {
            assert(code_of(33) == (0x3f8u32, 10u8));
            assert(code_of(34) == (0x3f9u32, 10u8));
            assert(symbol_in_code_order(74) == 33);
            assert(symbol_in_code_order(75) == 34);
            assert(interval_lo(33) == 0x3f800000);
            assert(interval_width(33) == 0x100000);
            assert(interval_lo(34) == 0x3f900000);
        } else if x == 75 {
            assert(code_of(34) == (0x3f9u32, 10u8));
            assert(code_of(40) == (0x3fau32, 10u8));
            assert(symbol_in_code_order(75) == 34);
            assert(symbol_in_code_order(76) == 40);
            assert(interval_lo(34) == 0x3f900000);
            assert(interval_width(34) == 0x100000);
            assert(interval_lo(40) == 0x3fa00000);
        } else if x == 76 {
            assert(code_of(40) == (0x3fau32, 10u8));
            assert(code_of(41) == (0x3fbu32, 10u8));
            assert(symbol_in_code_order(76) == 40);
            assert(symbol_in_code_order(77) == 41);
            assert(interval_lo(40) == 0x3fa00000);
            assert(interval_width(40) == 0x100000);
            assert(interval_lo(41) == 0x3fb00000);
        } else if x == 77 {
            assert(code_of(41) == (0x3fbu32, 10u8));
            assert(code_of(63) == (0x3fcu32, 10u8));
            assert(symbol_in_code_order(77) == 41);
            assert(symbol_in_code_order(78) == 63);
            assert(interval_lo(41) == 0x3fb00000);
            assert(interval_width(41) == 0x100000);
            assert(interval_lo(63) == 0x3fc00000);
        } else if x == 78 {
            assert(code_of(63) == (0x3fcu32, 10u8));
            assert(code_of(39) == (0x7fau32, 11u8));
            assert(symbol_in_code_order(78) == 63);
            assert(symbol_in_code_order(79) == 39);
            assert(interval_lo(63) == 0x3fc00000);
            assert(interval_width(63) == 0x100000);
            assert(interval_lo(39) == 0x3fd00000);
        } else if x == 79 {
            assert(code_of(39) == (0x7fau32, 11u8));
            assert(code_of(43) == (0x7fbu32, 11u8));
            assert(symbol_in_code_order(79) == 39);
            assert(symbol_in_code_order(80) == 43);
            assert(interval_lo(39) == 0x3fd00000);
            assert(interval_width(39) == 0x80000);
            assert(interval_lo(43) == 0x3fd80000);
        }
}

proof fn lemma_code_order_adjacent_80(x: u16)
    requires
        80 <= x < 96,
    ensures
        interval_lo(symbol_in_code_order(x)) + interval_width(symbol_in_code_order(x)) == interval_lo(symbol_in_code_order((x + 1) as u16)),
{
    lemma2_to64();
    if x == 80 {
            assert(code_of(43) == (0x7fbu32, 11u8));
            assert(code_of(124) == (0x7fcu32, 11u8));
            assert(symbol_in_code_order(80) == 43);
            assert(symbol_in_code_order(81) == 124);
            assert(interval_lo(43) == 0x3fd80000);
            assert(interval_width(43) == 0x80000);
            assert(interval_lo(124) == 0x3fe00000);
        } else if x == 81 {
            assert(code_of(124) == (0x7fcu32, 11u8));
            assert(code_of(35) == (0xffau32, 12u8));
            assert(symbol_in_code_order(81) == 124);
            assert(symbol_in_code_order(82) == 35);
            assert(interval_lo(124) == 0x3fe00000);
            assert(interval_width(124) == 0x80000);
            assert(interval_lo(35) == 0x3fe80000);
        } else if x == 82 {
            assert(code_of(35) == (0xffau32, 12u8));
            assert(code_of(62) == (0xffbu32, 12u8));
            assert(symbol_in_code_order(82) == 35);
            assert(symbol_in_code_order(83) == 62);
            assert(interval_lo(35) == 0x3fe80000);
            assert(interval_width(35) == 0x40000);
            assert(interval_lo(62) == 0x3fec0000);
        } else if x == 83 {
            assert(code_of(62) == (0xffbu32, 12u8));
            assert(code_of(0) == (0x1ff8u32, 13u8));
            assert(symbol_in_code_order(83) == 62);
            assert(symbol_in_code_order(84) == 0);
            assert(interval_lo(62) == 0x3fec0000);
            assert(interval_width(62) == 0x40000);
            assert(interval_lo(0) == 0x3ff00000);
        } else if x == 84 {
            assert(code_of(0) == (0x1ff8u32, 13u8));
            assert(code_of(36) == (0x1ff9u32, 13u8));
            assert(symbol_in_code_order(84) == 0);
            assert(symbol_in_code_order(85) == 36);
            assert(interval_lo(0) == 0x3ff00000);
            assert(interval_width(0) == 0x20000);
            assert(interval_lo(36) == 0x3ff20000);
        } else if x == 85 {
            assert(code_of(36) == (0x1ff9u32, 13u8));
            assert(code_of(64) == (0x1ffau32, 13u8));
            assert(symbol_in_code_order(85) == 36);
            assert(symbol_in_code_order(86) == 64);
            assert(interval_lo(36) == 0x3ff20000);
            assert(interval_width(36) == 0x20000);
            assert(interval_lo(64) == 0x3ff40000);
        } else if x == 86 {
            assert(code_of(64) == (0x1ffau32, 13u8));
            assert(code_of(91) == (0x1ffbu32, 13u8));
            assert(symbol_in_code_order(86) == 64);
            assert(symbol_in_code_order(87) == 91);
            assert(interval_lo(64) == 0x3ff40000);
            assert(interval_width(64) == 0x20000);
            assert(interval_lo(91) == 0x3ff60000);
        } else if x == 87 {
            assert(code_of(91) == (0x1ffbu32, 13u8));
            assert(code_of(93) == (0x1ffcu32, 13u8));
            assert(symbol_in_code_order(87) == 91);
            assert(symbol_in_code_order(88) == 93);
            assert(interval_lo(91) == 0x3ff60000);
            assert(interval_width(91) == 0x20000);
            assert(interval_lo(93) == 0x3ff80000);
        } else if x == 88 {
            assert(code_of(93) == (0x1ffcu32, 13u8));
            assert(code_of(126) == (0x1ffdu32, 13u8));
            assert(symbol_in_code_order(88) == 93);
            assert(symbol_in_code_order(89) == 126);
            assert(interval_lo(93) == 0x3ff80000);
            assert(interval_width(93) == 0x20000);
            assert(interval_lo(126) == 0x3ffa0000);
        } else if x == 89 {
            assert(code_of(126) == (0x1ffdu32, 13u8));
            assert(code_of(94) == (0x3ffcu32, 14u8));
            assert(symbol_in_code_order(89) == 126);
            assert(symbol_in_code_order(90) == 94);
            assert(interval_lo(126) == 0x3ffa0000);
            assert(interval_width(126) == 0x20000);
            assert(interval_lo(94) == 0x3ffc0000);
        } else if x == 90 {
            assert(code_of(94) == (0x3ffcu32, 14u8));
            assert(code_of(125) == (0x3ffdu32, 14u8));
            assert(symbol_in_code_order(90) == 94);
            assert(symbol_in_code_order(91) == 125);
            assert(interval_lo(94) == 0x3ffc0000);
            assert(interval_width(94) == 0x10000);
            assert(interval_lo(125) == 0x3ffd0000);
        } else if x == 91 {
            assert(code_of(125) == (0x3ffdu32, 14u8));
            assert(code_of(60) == (0x7ffcu32, 15u8));
            assert(symbol_in_code_order(91) == 125);
            assert(symbol_in_code_order(92) == 60);
            assert(interval_lo(125) == 0x3ffd0000);
            assert(interval_width(125) == 0x10000);
            assert(interval_lo(60) == 0x3ffe0000);
        } else if x == 92 {
            assert(code_of(60) == (0x7ffcu32, 15u8));
            assert(code_of(96) == (0x7ffdu32, 15u8));
            assert(symbol_in_code_order(92) == 60);
            assert(symbol_in_code_order(93) == 96);
            assert(interval_lo(60) == 0x3ffe0000);
            assert(interval_width(60) == 0x8000);
            assert(interval_lo(96) == 0x3ffe8000);
        } else if x == 93 {
            assert(code_of(96) == (0x7ffdu32, 15u8));
            assert(code_of(123) == (0x7ffeu32, 15u8));
            assert(symbol_in_code_order(93) == 96);
            assert(symbol_in_code_order(94) == 123);
            assert(interval_lo(96) == 0x3ffe8000);
            assert(interval_width(96) == 0x8000);
            assert(interval_lo(123) == 0x3fff0000);
        } else if x == 94 {
            assert(code_of(123) == (0x7ffeu32, 15u8));
            assert(code_of(92) == (0x7fff0u32, 19u8));
            assert(symbol_in_code_order(94) == 123);
            assert(symbol_in_code_order(95) == 92);
            assert(interval_lo(123) == 0x3fff0000);
            assert(interval_width(123) == 0x8000);
            assert(interval_lo(92) == 0x3fff8000);
        } else if x == 95 {
            assert(code_of(92) == (0x7fff0u32, 19u8));
            assert(code_of(195) == (0x7fff1u32, 19u8));
            assert(symbol_in_code_order(95) == 92);
            assert(symbol_in_code_order(96) == 195);
            assert(interval_lo(92) == 0x3fff8000);
            assert(interval_width(92) == 0x800);
            assert(interval_lo(195) == 0x3fff8800);
        }
}

proof fn lemma_code_order_adjacent_96(x: u16)
    requires
        96 <= x < 112,
    ensures
        interval_lo(symbol_in_code_order(x)) + interval_width(symbol_in_code_order(x)) == interval_lo(symbol_in_code_order((x + 1) as u16)),
{
    lemma2_to64();
    if x == 96 {
            assert(code_of(195) == (0x7fff1u32, 19u8));
            assert(code_of(208) == (0x7fff2u32, 19u8));
            assert(symbol_in_code_order(96) == 195);
            assert(symbol_in_code_order(97) == 208);
            assert(interval_lo(195) == 0x3fff8800);
            assert(interval_width(195) == 0x800);
            assert(interval_lo(208) == 0x3fff9000);
        } else if x == 97 {
            assert(code_of(208) == (0x7fff2u32, 19u8));
            assert(code_of(128) == (0xfffe6u32, 20u8));
            assert(symbol_in_code_order(97) == 208);
            assert(symbol_in_code_order(98) == 128);
            assert(interval_lo(208) == 0x3fff9000);
            assert(interval_width(208) == 0x800);
            assert(interval_lo(128) == 0x3fff9800);
        } else if x == 98 {
            assert(code_of(128) == (0xfffe6u32, 20u8));
            assert(code_of(130) == (0xfffe7u32, 20u8));
            assert(symbol_in_code_order(98) == 128);
            assert(symbol_in_code_order(99) == 130);
            assert(interval_lo(128) == 0x3fff9800);
            assert(interval_width(128) == 0x400);
            assert(interval_lo(130) == 0x3fff9c00);
        } else if x == 99 {
            assert(code_of(130) == (0xfffe7u32, 20u8));
            assert(code_of(131) == (0xfffe8u32, 20u8));
            assert(symbol_in_code_order(99) == 130);
            assert(symbol_in_code_order(100) == 131);
            assert(interval_lo(130) == 0x3fff9c00);
            assert(interval_width(130) == 0x400);
            assert(interval_lo(131) == 0x3fffa000);
        } else if x == 100 {
            assert(code_of(131) == (0xfffe8u32, 20u8));
            assert(code_of(162) == (0xfffe9u32, 20u8));
            assert(symbol_in_code_order(100) == 131);
            assert(symbol_in_code_order(101) == 162);
            assert(interval_lo(131) == 0x3fffa000);
            assert(interval_width(131) == 0x400);
            assert(interval_lo(162) == 0x3fffa400);
        } else if x == 101 {
            assert(code_of(162) == (0xfffe9u32, 20u8));
            assert(code_of(184) == (0xfffeau32, 20u8));
            assert(symbol_in_code_order(101) == 162);
            assert(symbol_in_code_order(102) == 184);
            assert(interval_lo(162) == 0x3fffa400);
            assert(interval_width(162) == 0x400);
            assert(interval_lo(184) == 0x3fffa800);
        } else if x == 102 {
            assert(code_of(184) == (0xfffeau32, 20u8));
            assert(code_of(194) == (0xfffebu32, 20u8));
            assert(symbol_in_code_order(102) == 184);
            assert(symbol_in_code_order(103) == 194);
            assert(interval_lo(184) == 0x3fffa800);
            assert(interval_width(184) == 0x400);
            assert(interval_lo(194) == 0x3fffac00);
        } else if x == 103 {
            assert(code_of(194) == (0xfffebu32, 20u8));
            assert(code_of(224) == (0xfffecu32, 20u8));
            assert(symbol_in_code_order(103) == 194);
            assert(symbol_in_code_order(104) == 224);
            assert(interval_lo(194) == 0x3fffac00);
            assert(interval_width(194) == 0x400);
            assert(interval_lo(224) == 0x3fffb000);
        } else if x == 104 {
            assert(code_of(224) == (0xfffecu32, 20u8));
            assert(code_of(226) == (0xfffedu32, 20u8));
            assert(symbol_in_code_order(104) == 224);
            assert(symbol_in_code_order(105) == 226);
            assert(interval_lo(224) == 0x3fffb000);
            assert(interval_width(224) == 0x400);
            assert(interval_lo(226) == 0x3fffb400);
        } else if x == 105 {
            assert(code_of(226) == (0xfffedu32, 20u8));
            assert(code_of(153) == (0x1fffdcu32, 21u8));
            assert(symbol_in_code_order(105) == 226);
            assert(symbol_in_code_order(106) == 153);
            assert(interval_lo(226) == 0x3fffb400);
            assert(interval_width(226) == 0x400);
            assert(interval_lo(153) == 0x3fffb800);
        } else if x == 106 {
            assert(code_of(153) == (0x1fffdcu32, 21u8));
            assert(code_of(161) == (0x1fffddu32, 21u8));
            assert(symbol_in_code_order(106) == 153);
            assert(symbol_in_code_order(107) == 161);
            assert(interval_lo(153) == 0x3fffb800);
            assert(interval_width(153) == 0x200);
            assert(interval_lo(161) == 0x3fffba00);
        } else if x == 107 {
            assert(code_of(161) == (0x1fffddu32, 21u8));
            assert(code_of(167) == (0x1fffdeu32, 21u8));
            assert(symbol_in_code_order(107) == 161);
            assert(symbol_in_code_order(108) == 167);
            assert(interval_lo(161) == 0x3fffba00);
            assert(interval_width(161) == 0x200);
            assert(interval_lo(167) == 0x3fffbc00);
        } else if x == 108 {
            assert(code_of(167) == (0x1fffdeu32, 21u8));
            assert(code_of(172) == (0x1fffdfu32, 21u8));
            assert(symbol_in_code_order(108) == 167);
            assert(symbol_in_code_order(109) == 172);
            assert(interval_lo(167) == 0x3fffbc00);
            assert(interval_width(167) == 0x200);
            assert(interval_lo(172) == 0x3fffbe00);
        } else if x == 109 {
            assert(code_of(172) == (0x1fffdfu32, 21u8));
            assert(code_of(176) == (0x1fffe0u32, 21u8));
            assert(symbol_in_code_order(109) == 172);
            assert(symbol_in_code_order(110) == 176);
            assert(interval_lo(172) == 0x3fffbe00);
            assert(interval_width(172) == 0x200);
            assert(interval_lo(176) == 0x3fffc000);
        } else if x == 110 {
            assert(code_of(176) == (0x1fffe0u32, 21u8));
            assert(code_of(177) == (0x1fffe1u32, 21u8));
            assert(symbol_in_code_order(110) == 176);
            assert(symbol_in_code_order(111) == 177);
            assert(interval_lo(176) == 0x3fffc000);
            assert(interval_width(176) == 0x200);
            assert(interval_lo(177) == 0x3fffc200);
        } else if x == 111 {
            assert(code_of(177) == (0x1fffe1u32, 21u8));
            assert(code_of(179) == (0x1fffe2u32, 21u8));
            assert(symbol_in_code_order(111) == 177);
            assert(symbol_in_code_order(112) == 179);
            assert(interval_lo(177) == 0x3fffc200);
            assert(interval_width(177) == 0x200);
            assert(interval_lo(179) == 0x3fffc400);
        }
}

proof fn lemma_code_order_adjacent_112(x: u16)
    requires
        112 <= x < 128,
    ensures
        interval_lo(symbol_in_code_order(x)) + interval_width(symbol_in_code_order(x)) == interval_lo(symbol_in_code_order((x + 1) as u16)),
{
    lemma2_to64();
    if x == 112 {
            assert(code_of(179) == (0x1fffe2u32, 21u8));
            assert(code_of(209) == (0x1fffe3u32, 21u8));
            assert(symbol_in_code_order(112) == 179);
            assert(symbol_in_code_order(113) == 209);
            assert(interval_lo(179) == 0x3fffc400);
            assert(interval_width(179) == 0x200);
            assert(interval_lo(209) == 0x3fffc600);
        } else if x == 113 {
            assert(code_of(209) == (0x1fffe3u32, 21u8));
            assert(code_of(216) == (0x1fffe4u32, 21u8));
            assert(symbol_in_code_order(113) == 209);
            assert(symbol_in_code_order(114) == 216);
            assert(interval_lo(209) == 0x3fffc600);
            assert(interval_width(209) == 0x200);
            assert(interval_lo(216) == 0x3fffc800);
        } else if x == 114 {
            assert(code_of(216) == (0x1fffe4u32, 21u8));
            assert(code_of(217) == (0x1fffe5u32, 21u8));
            assert(symbol_in_code_order(114) == 216);
            assert(symbol_in_code_order(115) == 217);
            assert(interval_lo(216) == 0x3fffc800);
            assert(interval_width(216) == 0x200);
            assert(interval_lo(217) == 0x3fffca00);
        } else if x == 115 {
            assert(code_of(217) == (0x1fffe5u32, 21u8));
            assert(code_of(227) == (0x1fffe6u32, 21u8));
            assert(symbol_in_code_order(115) == 217);
            assert(symbol_in_code_order(116) == 227);
            assert(interval_lo(217) == 0x3fffca00);
            assert(interval_width(217) == 0x200);
            assert(interval_lo(227) == 0x3fffcc00);
        } else if x == 116 {
            assert(code_of(227) == (0x1fffe6u32, 21u8));
            assert(code_of(229) == (0x1fffe7u32, 21u8));
            assert(symbol_in_code_order(116) == 227);
            assert(symbol_in_code_order(117) == 229);
            assert(interval_lo(227) == 0x3fffcc00);
            assert(interval_width(227) == 0x200);
            assert(interval_lo(229) == 0x3fffce00);
        } else if x == 117 {
            assert(code_of(229) == (0x1fffe7u32, 21u8));
            assert(code_of(230) == (0x1fffe8u32, 21u8));
            assert(symbol_in_code_order(117) == 229);
            assert(symbol_in_code_order(118) == 230);
            assert(interval_lo(229) == 0x3fffce00);
            assert(interval_width(229) == 0x200);
            assert(interval_lo(230) == 0x3fffd000);
        } else if x == 118 {
            assert(code_of(230) == (0x1fffe8u32, 21u8));
            assert(code_of(129) == (0x3fffd2u32, 22u8));
            assert(symbol_in_code_order(118) == 230);
            assert(symbol_in_code_order(119) == 129);
            assert(interval_lo(230) == 0x3fffd000);
            assert(interval_width(230) == 0x200);
            assert(interval_lo(129) == 0x3fffd200);
        } else if x == 119 {
            assert(code_of(129) == (0x3fffd2u32, 22u8));
            assert(code_of(132) == (0x3fffd3u32, 22u8));
            assert(symbol_in_code_order(119) == 129);
            assert(symbol_in_code_order(120) == 132);
            assert(interval_lo(129) == 0x3fffd200);
            assert(interval_width(129) == 0x100);
            assert(interval_lo(132) == 0x3fffd300);
        } else if x == 120 {
            assert(code_of(132) == (0x3fffd3u32, 22u8));
            assert(code_of(133) == (0x3fffd4u32, 22u8));
            assert(symbol_in_code_order(120) == 132);
            assert(symbol_in_code_order(121) == 133);
            assert(interval_lo(132) == 0x3fffd300);
            assert(interval_width(132) == 0x100);
            assert(interval_lo(133) == 0x3fffd400);
        } else if x == 121 {
            assert(code_of(133) == (0x3fffd4u32, 22u8));
            assert(code_of(134) == (0x3fffd5u32, 22u8));
            assert(symbol_in_code_order(121) == 133);
            assert(symbol_in_code_order(122) == 134);
            assert(interval_lo(133) == 0x3fffd400);
            assert(interval_width(133) == 0x100);
            assert(interval_lo(134) == 0x3fffd500);
        } else if x == 122 {
            assert(code_of(134) == (0x3fffd5u32, 22u8));
            assert(code_of(136) == (0x3fffd6u32, 22u8));
            assert(symbol_in_code_order(122) == 134);
            assert(symbol_in_code_order(123) == 136);
            assert(interval_lo(134) == 0x3fffd500);
            assert(interval_width(134) == 0x100);
            assert(interval_lo(136) == 0x3fffd600);
        } else if x == 123 {
            assert(code_of(136) == (0x3fffd6u32, 22u8));
            assert(code_of(146) == (0x3fffd7u32, 22u8));
            assert(symbol_in_code_order(123) == 136);
            assert(symbol_in_code_order(124) == 146);
            assert(interval_lo(136) == 0x3fffd600);
            assert(interval_width(136) == 0x100);
            assert(interval_lo(146) == 0x3fffd700);
        } else if x == 124 {
            assert(code_of(146) == (0x3fffd7u32, 22u8));
            assert(code_of(154) == (0x3fffd8u32, 22u8));
            assert(symbol_in_code_order(124) == 146);
            assert(symbol_in_code_order(125) == 154);
            assert(interval_lo(146) == 0x3fffd700);
            assert(interval_width(146) == 0x100);
            assert(interval_lo(154) == 0x3fffd800);
        } else if x == 125 {
            assert(code_of(154) == (0x3fffd8u32, 22u8));
            assert(code_of(156) == (0x3fffd9u32, 22u8));
            assert(symbol_in_code_order(125) == 154);
            assert(symbol_in_code_order(126) == 156);
            assert(interval_lo(154) == 0x3fffd800);
            assert(interval_width(154) == 0x100);
            assert(interval_lo(156) == 0x3fffd900);
        } else if x == 126 {
            assert(code_of(156) == (0x3fffd9u32, 22u8));
            assert(code_of(160) == (0x3fffdau32, 22u8));
            assert(symbol_in_code_order(126) == 156);
            assert(symbol_in_code_order(127) == 160);
            assert(interval_lo(156) == 0x3fffd900);
            assert(interval_width(156) == 0x100);
            assert(interval_lo(160) == 0x3fffda00);
        } else if x == 127 {
            assert(code_of(160) == (0x3fffdau32, 22u8));
            assert(code_of(163) == (0x3fffdbu32, 22u8));
            assert(symbol_in_code_order(127) == 160);
            assert(symbol_in_code_order(128) == 163);
            assert(interval_lo(160) == 0x3fffda00);
            assert(interval_width(160) == 0x100);
            assert(interval_lo(163) == 0x3fffdb00);
        }
}

proof fn lemma_code_order_adjacent_128(x: u16)
    requires
        128 <= x < 144,
    ensures
        interval_lo(symbol_in_code_order(x)) + interval_width(symbol_in_code_order(x)) == interval_lo(symbol_in_code_order((x + 1) as u16)),
{
    lemma2_to64();
    if x == 128 {
            assert(code_of(163) == (0x3fffdbu32, 22u8));
            assert(code_of(164) == (0x3fffdcu32, 22u8));
            assert(symbol_in_code_order(128) == 163);
            assert(symbol_in_code_order(129) == 164);
            assert(interval_lo(163) == 0x3fffdb00);
            assert(interval_width(163) == 0x100);
            assert(interval_lo(164) == 0x3fffdc00);
        } else if x == 129 {
            assert(code_of(164) == (0x3fffdcu32, 22u8));
            assert(code_of(169) == (0x3fffddu32, 22u8));
            assert(symbol_in_code_order(129) == 164);
            assert(symbol_in_code_order(130) == 169);
            assert(interval_lo(164) == 0x3fffdc00);
            assert(interval_width(164) == 0x100);
            assert(interval_lo(169) == 0x3fffdd00);
        } else if x == 130 {
            assert(code_of(169) == (0x3fffddu32, 22u8));
            assert(code_of(170) == (0x3fffdeu32, 22u8));
            assert(symbol_in_code_order(130) == 169);
            assert(symbol_in_code_order(131) == 170);
            assert(interval_lo(169) == 0x3fffdd00);
            assert(interval_width(169) == 0x100);
            assert(interval_lo(170) == 0x3fffde00);
        } else if x == 131 {
            assert(code_of(170) == (0x3fffdeu32, 22u8));
            assert(code_of(173) == (0x3fffdfu32, 22u8));
            assert(symbol_in_code_order(131) == 170);
            assert(symbol_in_code_order(132) == 173);
            assert(interval_lo(170) == 0x3fffde00);
            assert(interval_width(170) == 0x100);
            assert(interval_lo(173) == 0x3fffdf00);
        } else if x == 132 {
            assert(code_of(173) == (0x3fffdfu32, 22u8));
            assert(code_of(178) == (0x3fffe0u32, 22u8));
            assert(symbol_in_code_order(132) == 173);
            assert(symbol_in_code_order(133) == 178);
            assert(interval_lo(173) == 0x3fffdf00);
            assert(interval_width(173) == 0x100);
            assert(interval_lo(178) == 0x3fffe000);
        } else if x == 133 {
            assert(code_of(178) == (0x3fffe0u32, 22u8));
            assert(code_of(181) == (0x3fffe1u32, 22u8));
            assert(symbol_in_code_order(133) == 178);
            assert(symbol_in_code_order(134) == 181);
            assert(interval_lo(178) == 0x3fffe000);
            assert(interval_width(178) == 0x100);
            assert(interval_lo(181) == 0x3fffe100);
        } else if x == 134 {
            assert(code_of(181) == (0x3fffe1u32, 22u8));
            assert(code_of(185) == (0x3fffe2u32, 22u8));
            assert(symbol_in_code_order(134) == 181);
            assert(symbol_in_code_order(135) == 185);
            assert(interval_lo(181) == 0x3fffe100);
            assert(interval_width(181) == 0x100);
            assert(interval_lo(185) == 0x3fffe200);
        } else if x == 135 {
            assert(code_of(185) == (0x3fffe2u32, 22u8));
            assert(code_of(186) == (0x3fffe3u32, 22u8));
            assert(symbol_in_code_order(135) == 185);
            assert(symbol_in_code_order(136) == 186);
            assert(interval_lo(185) == 0x3fffe200);
            assert(interval_width(185) == 0x100);
            assert(interval_lo(186) == 0x3fffe300);
        } else if x == 136 {
            assert(code_of(186) == (0x3fffe3u32, 22u8));
            assert(code_of(187) == (0x3fffe4u32, 22u8));
            assert(symbol_in_code_order(136) == 186);
            assert(symbol_in_code_order(137) == 187);
            assert(interval_lo(186) == 0x3fffe300);
            assert(interval_width(186) == 0x100);
            assert(interval_lo(187) == 0x3fffe400);
        } else if x == 137 {
            assert(code_of(187) == (0x3fffe4u32, 22u8));
            assert(code_of(189) == (0x3fffe5u32, 22u8));
            assert(symbol_in_code_order(137) == 187);
            assert(symbol_in_code_order(138) == 189);
            assert(interval_lo(187) == 0x3fffe400);
            assert(interval_width(187) == 0x100);
            assert(interval_lo(189) == 0x3fffe500);
        } else if x == 138 {
            assert(code_of(189) == (0x3fffe5u32, 22u8));
            assert(code_of(190) == (0x3fffe6u32, 22u8));
            assert(symbol_in_code_order(138) == 189);
            assert(symbol_in_code_order(139) == 190);
            assert(interval_lo(189) == 0x3fffe500);
            assert(interval_width(189) == 0x100);
            assert(interval_lo(190) == 0x3fffe600);
        } else if x == 139 {
            assert(code_of(190) == (0x3fffe6u32, 22u8));
            assert(code_of(196) == (0x3fffe7u32, 22u8));
            assert(symbol_in_code_order(139) == 190);
            assert(symbol_in_code_order(140) == 196);
            assert(interval_lo(190) == 0x3fffe600);
            assert(interval_width(190) == 0x100);
            assert(interval_lo(196) == 0x3fffe700);
        } else if x == 140 {
            assert(code_of(196) == (0x3fffe7u32, 22u8));
            assert(code_of(198) == (0x3fffe8u32, 22u8));
            assert(symbol_in_code_order(140) == 196);
            assert(symbol_in_code_order(141) == 198);
            assert(interval_lo(196) == 0x3fffe700);
            assert(interval_width(196) == 0x100);
            assert(interval_lo(198) == 0x3fffe800);
        } else if x == 141 {
            assert(code_of(198) == (0x3fffe8u32, 22u8));
            assert(code_of(228) == (0x3fffe9u32, 22u8));
            assert(symbol_in_code_order(141) == 198);
            assert(symbol_in_code_order(142) == 228);
            assert(interval_lo(198) == 0x3fffe800);
            assert(interval_width(198) == 0x100);
            assert(interval_lo(228) == 0x3fffe900);
        } else if x == 142 {
            assert(code_of(228) == (0x3fffe9u32, 22u8));
            assert(code_of(232) == (0x3fffeau32, 22u8));
            assert(symbol_in_code_order(142) == 228);
            assert(symbol_in_code_order(143) == 232);
            assert(interval_lo(228) == 0x3fffe900);
            assert(interval_width(228) == 0x100);
            assert(interval_lo(232) == 0x3fffea00);
        } else if x == 143 {
            assert(code_of(232) == (0x3fffeau32, 22u8));
            assert(code_of(233) == (0x3fffebu32, 22u8));
            assert(symbol_in_code_order(143) == 232);
            assert(symbol_in_code_order(144) == 233);
            assert(interval_lo(232) == 0x3fffea00);
            assert(interval_width(232) == 0x100);
            assert(interval_lo(233) == 0x3fffeb00);
        }
}

proof fn lemma_code_order_adjacent_144(x: u16)
    requires
        144 <= x < 160,
    ensures
        interval_lo(symbol_in_code_order(x)) + interval_width(symbol_in_code_order(x)) == interval_lo(symbol_in_code_order((x + 1) as u16)),
{
    lemma2_to64();
    if x == 144 {
            assert(code_of(233) == (0x3fffebu32, 22u8));
            assert(code_of(1) == (0x7fffd8u32, 23u8));
            assert(symbol_in_code_order(144) == 233);
            assert(symbol_in_code_order(145) == 1);
            assert(interval_lo(233) == 0x3fffeb00);
            assert(interval_width(233) == 0x100);
            assert(interval_lo(1) == 0x3fffec00);
        } else if x == 145 {
            assert(code_of(1) == (0x7fffd8u32, 23u8));
            assert(code_of(135) == (0x7fffd9u32, 23u8));
            assert(symbol_in_code_order(145) == 1);
            assert(symbol_in_code_order(146) == 135);
            assert(interval_lo(1) == 0x3fffec00);
            assert(interval_width(1) == 0x80);
            assert(interval_lo(135) == 0x3fffec80);
        } else if x == 146 {
            assert(code_of(135) == (0x7fffd9u32, 23u8));
            assert(code_of(137) == (0x7fffdau32, 23u8));
            assert(symbol_in_code_order(146) == 135);
            assert(symbol_in_code_order(147) == 137);
            assert(interval_lo(135) == 0x3fffec80);
            assert(interval_width(135) == 0x80);
            assert(interval_lo(137) == 0x3fffed00);
        } else if x == 147 {
            assert(code_of(137) == (0x7fffdau32, 23u8));
            assert(code_of(138) == (0x7fffdbu32, 23u8));
            assert(symbol_in_code_order(147) == 137);
            assert(symbol_in_code_order(148) == 138);
            assert(interval_lo(137) == 0x3fffed00);
            assert(interval_width(137) == 0x80);
            assert(interval_lo(138) == 0x3fffed80);
        } else if x == 148 {
            assert(code_of(138) == (0x7fffdbu32, 23u8));
            assert(code_of(139) == (0x7fffdcu32, 23u8));
            assert(symbol_in_code_order(148) == 138);
            assert(symbol_in_code_order(149) == 139);
            assert(interval_lo(138) == 0x3fffed80);
            assert(interval_width(138) == 0x80);
            assert(interval_lo(139) == 0x3fffee00);
        } else if x == 149 {
            assert(code_of(139) == (0x7fffdcu32, 23u8));
            assert(code_of(140) == (0x7fffddu32, 23u8));
            assert(symbol_in_code_order(149) == 139);
            assert(symbol_in_code_order(150) == 140);
            assert(interval_lo(139) == 0x3fffee00);
            assert(interval_width(139) == 0x80);
            assert(interval_lo(140) == 0x3fffee80);
        } else if x == 150 {
            assert(code_of(140) == (0x7fffddu32, 23u8));
            assert(code_of(141) == (0x7fffdeu32, 23u8));
            assert(symbol_in_code_order(150) == 140);
            assert(symbol_in_code_order(151) == 141);
            assert(interval_lo(140) == 0x3fffee80);
            assert(interval_width(140) == 0x80);
            assert(interval_lo(141) == 0x3fffef00);
        } else if x == 151 {
            assert(code_of(141) == (0x7fffdeu32, 23u8));
            assert(code_of(143) == (0x7fffdfu32, 23u8));
            assert(symbol_in_code_order(151) == 141);
            assert(symbol_in_code_order(152) == 143);
            assert(interval_lo(141) == 0x3fffef00);
            assert(interval_width(141) == 0x80);
            assert(interval_lo(143) == 0x3fffef80);
        } else if x == 152 {
            assert(code_of(143) == (0x7fffdfu32, 23u8));
            assert(code_of(147) == (0x7fffe0u32, 23u8));
            assert(symbol_in_code_order(152) == 143);
            assert(symbol_in_code_order(153) == 147);
            assert(interval_lo(143) == 0x3fffef80);
            assert(interval_width(143) == 0x80);
            assert(interval_lo(147) == 0x3ffff000);
        } else if x == 153 {
            assert(code_of(147) == (0x7fffe0u32, 23u8));
            assert(code_of(149) == (0x7fffe1u32, 23u8));
            assert(symbol_in_code_order(153) == 147);
            assert(symbol_in_code_order(154) == 149);
            assert(interval_lo(147) == 0x3ffff000);
            assert(interval_width(147) == 0x80);
            assert(interval_lo(149) == 0x3ffff080);
        } else if x == 154 {
            assert(code_of(149) == (0x7fffe1u32, 23u8));
            assert(code_of(150) == (0x7fffe2u32, 23u8));
            assert(symbol_in_code_order(154) == 149);
            assert(symbol_in_code_order(155) == 150);
            assert(interval_lo(149) == 0x3ffff080);
            assert(interval_width(149) == 0x80);
            assert(interval_lo(150) == 0x3ffff100);
        } else if x == 155 {
            assert(code_of(150) == (0x7fffe2u32, 23u8));
            assert(code_of(151) == (0x7fffe3u32, 23u8));
            assert(symbol_in_code_order(155) == 150);
            assert(symbol_in_code_order(156) == 151);
            assert(interval_lo(150) == 0x3ffff100);
            assert(interval_width(150) == 0x80);
            assert(interval_lo(151) == 0x3ffff180);
        } else if x == 156 {
            assert(code_of(151) == (0x7fffe3u32, 23u8));
            assert(code_of(152) == (0x7fffe4u32, 23u8));
            assert(symbol_in_code_order(156) == 151);
            assert(symbol_in_code_order(157) == 152);
            assert(interval_lo(151) == 0x3ffff180);
            assert(interval_width(151) == 0x80);
            assert(interval_lo(152) == 0x3ffff200);
        } else if x == 157 {
            assert(code_of(152) == (0x7fffe4u32, 23u8));
            assert(code_of(155) == (0x7fffe5u32, 23u8));
            assert(symbol_in_code_order(157) == 152);
            assert(symbol_in_code_order(158) == 155);
            assert(interval_lo(152) == 0x3ffff200);
            assert(interval_width(152) == 0x80);
            assert(interval_lo(155) == 0x3ffff280);
        } else if x == 158 {
            assert(code_of(155) == (0x7fffe5u32, 23u8));
            assert(code_of(157) == (0x7fffe6u32, 23u8));
            assert(symbol_in_code_order(158) == 155);
            assert(symbol_in_code_order(159) == 157);
            assert(interval_lo(155) == 0x3ffff280);
            assert(interval_width(155) == 0x80);
            assert(interval_lo(157) == 0x3ffff300);
        } else if x == 159 {
            assert(code_of(157) == (0x7fffe6u32, 23u8));
            assert(code_of(158) == (0x7fffe7u32, 23u8));
            assert(symbol_in_code_order(159) == 157);
            assert(symbol_in_code_order(160) == 158);
            assert(interval_lo(157) == 0x3ffff300);
            assert(interval_width(157) == 0x80);
            assert(interval_lo(158) == 0x3ffff380);
        }
}

proof fn lemma_code_order_adjacent_160(x: u16)
    requires
        160 <= x < 176,
    ensures
        interval_lo(symbol_in_code_order(x)) + interval_width(symbol_in_code_order(x)) == interval_lo(symbol_in_code_order((x + 1) as u16)),
{
    lemma2_to64();
    if x == 160 {
            assert(code_of(158) == (0x7fffe7u32, 23u8));
            assert(code_of(165) == (0x7fffe8u32, 23u8));
            assert(symbol_in_code_order(160) == 158);
            assert(symbol_in_code_order(161) == 165);
            assert(interval_lo(158) == 0x3ffff380);
            assert(interval_width(158) == 0x80);
            assert(interval_lo(165) == 0x3ffff400);
        } else if x == 161 {
            assert(code_of(165) == (0x7fffe8u32, 23u8));
            assert(code_of(166) == (0x7fffe9u32, 23u8));
            assert(symbol_in_code_order(161) == 165);
            assert(symbol_in_code_order(162) == 166);
            assert(interval_lo(165) == 0x3ffff400);
            assert(interval_width(165) == 0x80);
            assert(interval_lo(166) == 0x3ffff480);
        } else if x == 162 {
            assert(code_of(166) == (0x7fffe9u32, 23u8));
            assert(code_of(168) == (0x7fffeau32, 23u8));
            assert(symbol_in_code_order(162) == 166);
            assert(symbol_in_code_order(163) == 168);
            assert(interval_lo(166) == 0x3ffff480);
            assert(interval_width(166) == 0x80);
            assert(interval_lo(168) == 0x3ffff500);
        } else if x == 163 {
            assert(code_of(168) == (0x7fffeau32, 23u8));
            assert(code_of(174) == (0x7fffebu32, 23u8));
            assert(symbol_in_code_order(163) == 168);
            assert(symbol_in_code_order(164) == 174);
            assert(interval_lo(168) == 0x3ffff500);
            assert(interval_width(168) == 0x80);
            assert(interval_lo(174) == 0x3ffff580);
        } else if x == 164 {
            assert(code_of(174) == (0x7fffebu32, 23u8));
            assert(code_of(175) == (0x7fffecu32, 23u8));
            assert(symbol_in_code_order(164) == 174);
            assert(symbol_in_code_order(165) == 175);
            assert(interval_lo(174) == 0x3ffff580);
            assert(interval_width(174) == 0x80);
            assert(interval_lo(175) == 0x3ffff600);
        } else if x == 165 {
            assert(code_of(175) == (0x7fffecu32, 23u8));
            assert(code_of(180) == (0x7fffedu32, 23u8));
            assert(symbol_in_code_order(165) == 175);
            assert(symbol_in_code_order(166) == 180);
            assert(interval_lo(175) == 0x3ffff600);
            assert(interval_width(175) == 0x80);
            assert(interval_lo(180) == 0x3ffff680);
        } else if x == 166 {
            assert(code_of(180) == (0x7fffedu32, 23u8));
            assert(code_of(182) == (0x7fffeeu32, 23u8));
            assert(symbol_in_code_order(166) == 180);
            assert(symbol_in_code_order(167) == 182);
            assert(interval_lo(180) == 0x3ffff680);
            assert(interval_width(180) == 0x80);
            assert(interval_lo(182) == 0x3ffff700);
        } else if x == 167 {
            assert(code_of(182) == (0x7fffeeu32, 23u8));
            assert(code_of(183) == (0x7fffefu32, 23u8));
            assert(symbol_in_code_order(167) == 182);
            assert(symbol_in_code_order(168) == 183);
            assert(interval_lo(182) == 0x3ffff700);
            assert(interval_width(182) == 0x80);
            assert(interval_lo(183) == 0x3ffff780);
        } else if x == 168 {
            assert(code_of(183) == (0x7fffefu32, 23u8));
            assert(code_of(188) == (0x7ffff0u32, 23u8));
            assert(symbol_in_code_order(168) == 183);
            assert(symbol_in_code_order(169) == 188);
            assert(interval_lo(183) == 0x3ffff780);
            assert(interval_width(183) == 0x80);
            assert(interval_lo(188) == 0x3ffff800);
        } else if x == 169 {
            assert(code_of(188) == (0x7ffff0u32, 23u8));
            assert(code_of(191) == (0x7ffff1u32, 23u8));
            assert(symbol_in_code_order(169) == 188);
            assert(symbol_in_code_order(170) == 191);
            assert(interval_lo(188) == 0x3ffff800);
            assert(interval_width(188) == 0x80);
            assert(interval_lo(191) == 0x3ffff880);
        } else if x == 170 {
            assert(code_of(191) == (0x7ffff1u32, 23u8));
            assert(code_of(197) == (0x7ffff2u32, 23u8));
            assert(symbol_in_code_order(170) == 191);
            assert(symbol_in_code_order(171) == 197);
            assert(interval_lo(191) == 0x3ffff880);
            assert(interval_width(191) == 0x80);
            assert(interval_lo(197) == 0x3ffff900);
        } else if x == 171 {
            assert(code_of(197) == (0x7ffff2u32, 23u8));
            assert(code_of(231) == (0x7ffff3u32, 23u8));
            assert(symbol_in_code_order(171) == 197);
            assert(symbol_in_code_order(172) == 231);
            assert(interval_lo(197) == 0x3ffff900);
            assert(interval_width(197) == 0x80);
            assert(interval_lo(231) == 0x3ffff980);
        } else if x == 172 {
            assert(code_of(231) == (0x7ffff3u32, 23u8));
            assert(code_of(239) == (0x7ffff4u32, 23u8));
            assert(symbol_in_code_order(172) == 231);
            assert(symbol_in_code_order(173) == 239);
            assert(interval_lo(231) == 0x3ffff980);
            assert(interval_width(231) == 0x80);
            assert(interval_lo(239) == 0x3ffffa00);
        } else if x == 173 {
            assert(code_of(239) == (0x7ffff4u32, 23u8));
            assert(code_of(9) == (0xffffeau32, 24u8));
            assert(symbol_in_code_order(173) == 239);
            assert(symbol_in_code_order(174) == 9);
            assert(interval_lo(239) == 0x3ffffa00);
            assert(interval_width(239) == 0x80);
            assert(interval_lo(9) == 0x3ffffa80);
        } else if x == 174 {
            assert(code_of(9) == (0xffffeau32, 24u8));
            assert(code_of(142) == (0xffffebu32, 24u8));
            assert(symbol_in_code_order(174) == 9);
            assert(symbol_in_code_order(175) == 142);
            assert(interval_lo(9) == 0x3ffffa80);
            assert(interval_width(9) == 0x40);
            assert(interval_lo(142) == 0x3ffffac0);
        } else if x == 175 {
            assert(code_of(142) == (0xffffebu32, 24u8));
            assert(code_of(144) == (0xffffecu32, 24u8));
            assert(symbol_in_code_order(175) == 142);
            assert(symbol_in_code_order(176) == 144);
            assert(interval_lo(142) == 0x3ffffac0);
            assert(interval_width(142) == 0x40);
            assert(interval_lo(144) == 0x3ffffb00);
        }
}

proof fn lemma_code_order_adjacent_176(x: u16)
    requires
        176 <= x < 192,
    ensures
        interval_lo(symbol_in_code_order(x)) + interval_width(symbol_in_code_order(x)) == interval_lo(symbol_in_code_order((x + 1) as u16)),
{
    lemma2_to64();
    if x == 176 {
            assert(code_of(144) == (0xffffecu32, 24u8));
            assert(code_of(145) == (0xffffedu32, 24u8));
            assert(symbol_in_code_order(176) == 144);
            assert(symbol_in_code_order(177) == 145);
            assert(interval_lo(144) == 0x3ffffb00);
            assert(interval_width(144) == 0x40);
            assert(interval_lo(145) == 0x3ffffb40);
        } else if x == 177 {
            assert(code_of(145) == (0xffffedu32, 24u8));
            assert(code_of(148) == (0xffffeeu32, 24u8));
            assert(symbol_in_code_order(177) == 145);
            assert(symbol_in_code_order(178) == 148);
            assert(interval_lo(145) == 0x3ffffb40);
            assert(interval_width(145) == 0x40);
            assert(interval_lo(148) == 0x3ffffb80);
        } else if x == 178 {
            assert(code_of(148) == (0xffffeeu32, 24u8));
            assert(code_of(159) == (0xffffefu32, 24u8));
            assert(symbol_in_code_order(178) == 148);
            assert(symbol_in_code_order(179) == 159);
            assert(interval_lo(148) == 0x3ffffb80);
            assert(interval_width(148) == 0x40);
            assert(interval_lo(159) == 0x3ffffbc0);
        } else if x == 179 {
            assert(code_of(159) == (0xffffefu32, 24u8));
            assert(code_of(171) == (0xfffff0u32, 24u8));
            assert(symbol_in_code_order(179) == 159);
            assert(symbol_in_code_order(180) == 171);
            assert(interval_lo(159) == 0x3ffffbc0);
            assert(interval_width(159) == 0x40);
            assert(interval_lo(171) == 0x3ffffc00);
        } else if x == 180 {
            assert(code_of(171) == (0xfffff0u32, 24u8));
            assert(code_of(206) == (0xfffff1u32, 24u8));
            assert(symbol_in_code_order(180) == 171);
            assert(symbol_in_code_order(181) == 206);
            assert(interval_lo(171) == 0x3ffffc00);
            assert(interval_width(171) == 0x40);
            assert(interval_lo(206) == 0x3ffffc40);
        } else if x == 181 {
            assert(code_of(206) == (0xfffff1u32, 24u8));
            assert(code_of(215) == (0xfffff2u32, 24u8));
            assert(symbol_in_code_order(181) == 206);
            assert(symbol_in_code_order(182) == 215);
            assert(interval_lo(206) == 0x3ffffc40);
            assert(interval_width(206) == 0x40);
            assert(interval_lo(215) == 0x3ffffc80);
        } else if x == 182 {
            assert(code_of(215) == (0xfffff2u32, 24u8));
            assert(code_of(225) == (0xfffff3u32, 24u8));
            assert(symbol_in_code_order(182) == 215);
            assert(symbol_in_code_order(183) == 225);
            assert(interval_lo(215) == 0x3ffffc80);
            assert(interval_width(215) == 0x40);
            assert(interval_lo(225) == 0x3ffffcc0);
        } else if x == 183 {
            assert(code_of(225) == (0xfffff3u32, 24u8));
            assert(code_of(236) == (0xfffff4u32, 24u8));
            assert(symbol_in_code_order(183) == 225);
            assert(symbol_in_code_order(184) == 236);
            assert(interval_lo(225) == 0x3ffffcc0);
            assert(interval_width(225) == 0x40);
            assert(interval_lo(236) == 0x3ffffd00);
        } else if x == 184 {
            assert(code_of(236) == (0xfffff4u32, 24u8));
            assert(code_of(237) == (0xfffff5u32, 24u8));
            assert(symbol_in_code_order(184) == 236);
            assert(symbol_in_code_order(185) == 237);
            assert(interval_lo(236) == 0x3ffffd00);
            assert(interval_width(236) == 0x40);
            assert(interval_lo(237) == 0x3ffffd40);
        } else if x == 185 {
            assert(code_of(237) == (0xfffff5u32, 24u8));
            assert(code_of(199) == (0x1ffffecu32, 25u8));
            assert(symbol_in_code_order(185) == 237);
            assert(symbol_in_code_order(186) == 199);
            assert(interval_lo(237) == 0x3ffffd40);
            assert(interval_width(237) == 0x40);
            assert(interval_lo(199) == 0x3ffffd80);
        } else if x == 186 {
            assert(code_of(199) == (0x1ffffecu32, 25u8));
            assert(code_of(207) == (0x1ffffedu32, 25u8));
            assert(symbol_in_code_order(186) == 199);
            assert(symbol_in_code_order(187) == 207);
            assert(interval_lo(199) == 0x3ffffd80);
            assert(interval_width(199) == 0x20);
            assert(interval_lo(207) == 0x3ffffda0);
        } else if x == 187 {
            assert(code_of(207) == (0x1ffffedu32, 25u8));
            assert(code_of(234) == (0x1ffffeeu32, 25u8));
            assert(symbol_in_code_order(187) == 207);
            assert(symbol_in_code_order(188) == 234);
            assert(interval_lo(207) == 0x3ffffda0);
            assert(interval_width(207) == 0x20);
            assert(interval_lo(234) == 0x3ffffdc0);
        } else if x == 188 {
            assert(code_of(234) == (0x1ffffeeu32, 25u8));
            assert(code_of(235) == (0x1ffffefu32, 25u8));
            assert(symbol_in_code_order(188) == 234);
            assert(symbol_in_code_order(189) == 235);
            assert(interval_lo(234) == 0x3ffffdc0);
            assert(interval_width(234) == 0x20);
            assert(interval_lo(235) == 0x3ffffde0);
        } else if x == 189 {
            assert(code_of(235) == (0x1ffffefu32, 25u8));
            assert(code_of(192) == (0x3ffffe0u32, 26u8));
            assert(symbol_in_code_order(189) == 235);
            assert(symbol_in_code_order(190) == 192);
            assert(interval_lo(235) == 0x3ffffde0);
            assert(interval_width(235) == 0x20);
            assert(interval_lo(192) == 0x3ffffe00);
        } else if x == 190 {
            assert(code_of(192) == (0x3ffffe0u32, 26u8));
            assert(code_of(193) == (0x3ffffe1u32, 26u8));
            assert(symbol_in_code_order(190) == 192);
            assert(symbol_in_code_order(191) == 193);
            assert(interval_lo(192) == 0x3ffffe00);
            assert(interval_width(192) == 0x10);
            assert(interval_lo(193) == 0x3ffffe10);
        } else if x == 191 {
            assert(code_of(193) == (0x3ffffe1u32, 26u8));
            assert(code_of(200) == (0x3ffffe2u32, 26u8));
            assert(symbol_in_code_order(191) == 193);
            assert(symbol_in_code_order(192) == 200);
            assert(interval_lo(193) == 0x3ffffe10);
            assert(interval_width(193) == 0x10);
            assert(interval_lo(200) == 0x3ffffe20);
        }
}

proof fn lemma_code_order_adjacent_192(x: u16)
    requires
        192 <= x < 208,
    ensures
        interval_lo(symbol_in_code_order(x)) + interval_width(symbol_in_code_order(x)) == interval_lo(symbol_in_code_order((x + 1) as u16)),
{
    lemma2_to64();
    if x == 192 {
            assert(code_of(200) == (0x3ffffe2u32, 26u8));
            assert(code_of(201) == (0x3ffffe3u32, 26u8));
            assert(symbol_in_code_order(192) == 200);
            assert(symbol_in_code_order(193) == 201);
            assert(interval_lo(200) == 0x3ffffe20);
            assert(interval_width(200) == 0x10);
            assert(interval_lo(201) == 0x3ffffe30);
        } else if x == 193 {
            assert(code_of(201) == (0x3ffffe3u32, 26u8));
            assert(code_of(202) == (0x3ffffe4u32, 26u8));
            assert(symbol_in_code_order(193) == 201);
            assert(symbol_in_code_order(194) == 202);
            assert(interval_lo(201) == 0x3ffffe30);
            assert(interval_width(201) == 0x10);
            assert(interval_lo(202) == 0x3ffffe40);
        } else if x == 194 {
            assert(code_of(202) == (0x3ffffe4u32, 26u8));
            assert(code_of(205) == (0x3ffffe5u32, 26u8));
            assert(symbol_in_code_order(194) == 202);
            assert(symbol_in_code_order(195) == 205);
            assert(interval_lo(202) == 0x3ffffe40);
            assert(interval_width(202) == 0x10);
            assert(interval_lo(205) == 0x3ffffe50);
        } else if x == 195 {
            assert(code_of(205) == (0x3ffffe5u32, 26u8));
            assert(code_of(210) == (0x3ffffe6u32, 26u8));
            assert(symbol_in_code_order(195) == 205);
            assert(symbol_in_code_order(196) == 210);
            assert(interval_lo(205) == 0x3ffffe50);
            assert(interval_width(205) == 0x10);
            assert(interval_lo(210) == 0x3ffffe60);
        } else if x == 196 {
            assert(code_of(210) == (0x3ffffe6u32, 26u8));
            assert(code_of(213) == (0x3ffffe7u32, 26u8));
            assert(symbol_in_code_order(196) == 210);
            assert(symbol_in_code_order(197) == 213);
            assert(interval_lo(210) == 0x3ffffe60);
            assert(interval_width(210) == 0x10);
            assert(interval_lo(213) == 0x3ffffe70);
        } else if x == 197 {
            assert(code_of(213) == (0x3ffffe7u32, 26u8));
            assert(code_of(218) == (0x3ffffe8u32, 26u8));
            assert(symbol_in_code_order(197) == 213);
            assert(symbol_in_code_order(198) == 218);
            assert(interval_lo(213) == 0x3ffffe70);
            assert(interval_width(213) == 0x10);
            assert(interval_lo(218) == 0x3ffffe80);
        } else if x == 198 {
            assert(code_of(218) == (0x3ffffe8u32, 26u8));
            assert(code_of(219) == (0x3ffffe9u32, 26u8));
            assert(symbol_in_code_order(198) == 218);
            assert(symbol_in_code_order(199) == 219);
            assert(interval_lo(218) == 0x3ffffe80);
            assert(interval_width(218) == 0x10);
            assert(interval_lo(219) == 0x3ffffe90);
        } else if x == 199 {
            assert(code_of(219) == (0x3ffffe9u32, 26u8));
            assert(code_of(238) == (0x3ffffeau32, 26u8));
            assert(symbol_in_code_order(199) == 219);
            assert(symbol_in_code_order(200) == 238);
            assert(interval_lo(219) == 0x3ffffe90);
            assert(interval_width(219) == 0x10);
            assert(interval_lo(238) == 0x3ffffea0);
        } else if x == 200 {
            assert(code_of(238) == (0x3ffffeau32, 26u8));
            assert(code_of(240) == (0x3ffffebu32, 26u8));
            assert(symbol_in_code_order(200) == 238);
            assert(symbol_in_code_order(201) == 240);
            assert(interval_lo(238) == 0x3ffffea0);
            assert(interval_width(238) == 0x10);
            assert(interval_lo(240) == 0x3ffffeb0);
        } else if x == 201 {
            assert(code_of(240) == (0x3ffffebu32, 26u8));
            assert(code_of(242) == (0x3ffffecu32, 26u8));
            assert(symbol_in_code_order(201) == 240);
            assert(symbol_in_code_order(202) == 242);
            assert(interval_lo(240) == 0x3ffffeb0);
            assert(interval_width(240) == 0x10);
            assert(interval_lo(242) == 0x3ffffec0);
        } else if x == 202 {
            assert(code_of(242) == (0x3ffffecu32, 26u8));
            assert(code_of(243) == (0x3ffffedu32, 26u8));
            assert(symbol_in_code_order(202) == 242);
            assert(symbol_in_code_order(203) == 243);
            assert(interval_lo(242) == 0x3ffffec0);
            assert(interval_width(242) == 0x10);
            assert(interval_lo(243) == 0x3ffffed0);
        } else if x == 203 {
            assert(code_of(243) == (0x3ffffedu32, 26u8));
            assert(code_of(255) == (0x3ffffeeu32, 26u8));
            assert(symbol_in_code_order(203) == 243);
            assert(symbol_in_code_order(204) == 255);
            assert(interval_lo(243) == 0x3ffffed0);
            assert(interval_width(243) == 0x10);
            assert(interval_lo(255) == 0x3ffffee0);
        } else if x == 204 {
            assert(code_of(255) == (0x3ffffeeu32, 26u8));
            assert(code_of(203) == (0x7ffffdeu32, 27u8));
            assert(symbol_in_code_order(204) == 255);
            assert(symbol_in_code_order(205) == 203);
            assert(interval_lo(255) == 0x3ffffee0);
            assert(interval_width(255) == 0x10);
            assert(interval_lo(203) == 0x3ffffef0);
        } else if x == 205 {
            assert(code_of(203) == (0x7ffffdeu32, 27u8));
            assert(code_of(204) == (0x7ffffdfu32, 27u8));
            assert(symbol_in_code_order(205) == 203);
            assert(symbol_in_code_order(206) == 204);
            assert(interval_lo(203) == 0x3ffffef0);
            assert(interval_width(203) == 0x8);
            assert(interval_lo(204) == 0x3ffffef8);
        } else if x == 206 {
            assert(code_of(204) == (0x7ffffdfu32, 27u8));
            assert(code_of(211) == (0x7ffffe0u32, 27u8));
            assert(symbol_in_code_order(206) == 204);
            assert(symbol_in_code_order(207) == 211);
            assert(interval_lo(204) == 0x3ffffef8);
            assert(interval_width(204) == 0x8);
            assert(interval_lo(211) == 0x3fffff00);
        } else if x == 207 {
            assert(code_of(211) == (0x7ffffe0u32, 27u8));
            assert(code_of(212) == (0x7ffffe1u32, 27u8));
            assert(symbol_in_code_order(207) == 211);
            assert(symbol_in_code_order(208) == 212);
            assert(interval_lo(211) == 0x3fffff00);
            assert(interval_width(211) == 0x8);
            assert(interval_lo(212) == 0x3fffff08);
        }
}

proof fn lemma_code_order_adjacent_208(x: u16)
    requires
        208 <= x < 224,
    ensures
        interval_lo(symbol_in_code_order(x)) + interval_width(symbol_in_code_order(x)) == interval_lo(symbol_in_code_order((x + 1) as u16)),
{
    lemma2_to64();
    if x == 208 {
            assert(code_of(212) == (0x7ffffe1u32, 27u8));
            assert(code_of(214) == (0x7ffffe2u32, 27u8));
            assert(symbol_in_code_order(208) == 212);
            assert(symbol_in_code_order(209) == 214);
            assert(interval_lo(212) == 0x3fffff08);
            assert(interval_width(212) == 0x8);
            assert(interval_lo(214) == 0x3fffff10);
        } else if x == 209 {
            assert(code_of(214) == (0x7ffffe2u32, 27u8));
            assert(code_of(221) == (0x7ffffe3u32, 27u8));
            assert(symbol_in_code_order(209) == 214);
            assert(symbol_in_code_order(210) == 221);
            assert(interval_lo(214) == 0x3fffff10);
            assert(interval_width(214) == 0x8);
            assert(interval_lo(221) == 0x3fffff18);
        } else if x == 210 {
            assert(code_of(221) == (0x7ffffe3u32, 27u8));
            assert(code_of(222) == (0x7ffffe4u32, 27u8));
            assert(symbol_in_code_order(210) == 221);
            assert(symbol_in_code_order(211) == 222);
            assert(interval_lo(221) == 0x3fffff18);
            assert(interval_width(221) == 0x8);
            assert(interval_lo(222) == 0x3fffff20);
        } else if x == 211 {
            assert(code_of(222) == (0x7ffffe4u32, 27u8));
            assert(code_of(223) == (0x7ffffe5u32, 27u8));
            assert(symbol_in_code_order(211) == 222);
            assert(symbol_in_code_order(212) == 223);
            assert(interval_lo(222) == 0x3fffff20);
            assert(interval_width(222) == 0x8);
            assert(interval_lo(223) == 0x3fffff28);
        } else if x == 212 {
            assert(code_of(223) == (0x7ffffe5u32, 27u8));
            assert(code_of(241) == (0x7ffffe6u32, 27u8));
            assert(symbol_in_code_order(212) == 223);
            assert(symbol_in_code_order(213) == 241);
            assert(interval_lo(223) == 0x3fffff28);
            assert(interval_width(223) == 0x8);
            assert(interval_lo(241) == 0x3fffff30);
        } else if x == 213 {
            assert(code_of(241) == (0x7ffffe6u32, 27u8));
            assert(code_of(244) == (0x7ffffe7u32, 27u8));
            assert(symbol_in_code_order(213) == 241);
            assert(symbol_in_code_order(214) == 244);
            assert(interval_lo(241) == 0x3fffff30);
            assert(interval_width(241) == 0x8);
            assert(interval_lo(244) == 0x3fffff38);
        } else if x == 214 {
            assert(code_of(244) == (0x7ffffe7u32, 27u8));
            assert(code_of(245) == (0x7ffffe8u32, 27u8));
            assert(symbol_in_code_order(214) == 244);
            assert(symbol_in_code_order(215) == 245);
            assert(interval_lo(244) == 0x3fffff38);
            assert(interval_width(244) == 0x8);
            assert(interval_lo(245) == 0x3fffff40);
        } else if x == 215 {
            assert(code_of(245) == (0x7ffffe8u32, 27u8));
            assert(code_of(246) == (0x7ffffe9u32, 27u8));
            assert(symbol_in_code_order(215) == 245);
            assert(symbol_in_code_order(216) == 246);
            assert(interval_lo(245) == 0x3fffff40);
            assert(interval_width(245) == 0x8);
            assert(interval_lo(246) == 0x3fffff48);
        } else if x == 216 {
            assert(code_of(246) == (0x7ffffe9u32, 27u8));
            assert(code_of(247) == (0x7ffffeau32, 27u8));
            assert(symbol_in_code_order(216) == 246);
            assert(symbol_in_code_order(217) == 247);
            assert(interval_lo(246) == 0x3fffff48);
            assert(interval_width(246) == 0x8);
            assert(interval_lo(247) == 0x3fffff50);
        } else if x == 217 {
            assert(code_of(247) == (0x7ffffeau32, 27u8));
            assert(code_of(248) == (0x7ffffebu32, 27u8));
            assert(symbol_in_code_order(217) == 247);
            assert(symbol_in_code_order(218) == 248);
            assert(interval_lo(247) == 0x3fffff50);
            assert(interval_width(247) == 0x8);
            assert(interval_lo(248) == 0x3fffff58);
        } else if x == 218 {
            assert(code_of(248) == (0x7ffffebu32, 27u8));
            assert(code_of(250) == (0x7ffffecu32, 27u8));
            assert(symbol_in_code_order(218) == 248);
            assert(symbol_in_code_order(219) == 250);
            assert(interval_lo(248) == 0x3fffff58);
            assert(interval_width(248) == 0x8);
            assert(interval_lo(250) == 0x3fffff60);
        } else if x == 219 {
            assert(code_of(250) == (0x7ffffecu32, 27u8));
            assert(code_of(251) == (0x7ffffedu32, 27u8));
            assert(symbol_in_code_order(219) == 250);
            assert(symbol_in_code_order(220) == 251);
            assert(interval_lo(250) == 0x3fffff60);
            assert(interval_width(250) == 0x8);
            assert(interval_lo(251) == 0x3fffff68);
        } else if x == 220 {
            assert(code_of(251) == (0x7ffffedu32, 27u8));
            assert(code_of(252) == (0x7ffffeeu32, 27u8));
            assert(symbol_in_code_order(220) == 251);
            assert(symbol_in_code_order(221) == 252);
            assert(interval_lo(251) == 0x3fffff68);
            assert(interval_width(251) == 0x8);
            assert(interval_lo(252) == 0x3fffff70);
        } else if x == 221 {
            assert(code_of(252) == (0x7ffffeeu32, 27u8));
            assert(code_of(253) == (0x7ffffefu32, 27u8));
            assert(symbol_in_code_order(221) == 252);
            assert(symbol_in_code_order(222) == 253);
            assert(interval_lo(252) == 0x3fffff70);
            assert(interval_width(252) == 0x8);
            assert(interval_lo(253) == 0x3fffff78);
        } else if x == 222 {
            assert(code_of(253) == (0x7ffffefu32, 27u8));
            assert(code_of(254) == (0x7fffff0u32, 27u8));
            assert(symbol_in_code_order(222) == 253);
            assert(symbol_in_code_order(223) == 254);
            assert(interval_lo(253) == 0x3fffff78);
            assert(interval_width(253) == 0x8);
            assert(interval_lo(254) == 0x3fffff80);
        } else if x == 223 {
            assert(code_of(254) == (0x7fffff0u32, 27u8));
            assert(code_of(2) == (0xfffffe2u32, 28u8));
            assert(symbol_in_code_order(223) == 254);
            assert(symbol_in_code_order(224) == 2);
            assert(interval_lo(254) == 0x3fffff80);
            assert(interval_width(254) == 0x8);
            assert(interval_lo(2) == 0x3fffff88);
        }
}

proof fn lemma_code_order_adjacent_224(x: u16)
    requires
        224 <= x < 240,
    ensures
        interval_lo(symbol_in_code_order(x)) + interval_width(symbol_in_code_order(x)) == interval_lo(symbol_in_code_order((x + 1) as u16)),
{
    lemma2_to64();
    if x == 224 {
            assert(code_of(2) == (0xfffffe2u32, 28u8));
            assert(code_of(3) == (0xfffffe3u32, 28u8));
            assert(symbol_in_code_order(224) == 2);
            assert(symbol_in_code_order(225) == 3);
            assert(interval_lo(2) == 0x3fffff88);
            assert(interval_width(2) == 0x4);
            assert(interval_lo(3) == 0x3fffff8c);
        } else if x == 225 {
            assert(code_of(3) == (0xfffffe3u32, 28u8));
            assert(code_of(4) == (0xfffffe4u32, 28u8));
            assert(symbol_in_code_order(225) == 3);
            assert(symbol_in_code_order(226) == 4);
            assert(interval_lo(3) == 0x3fffff8c);
            assert(interval_width(3) == 0x4);
            assert(interval_lo(4) == 0x3fffff90);
        } else if x == 226 {
            assert(code_of(4) == (0xfffffe4u32, 28u8));
            assert(code_of(5) == (0xfffffe5u32, 28u8));
            assert(symbol_in_code_order(226) == 4);
            assert(symbol_in_code_order(227) == 5);
            assert(interval_lo(4) == 0x3fffff90);
            assert(interval_width(4) == 0x4);
            assert(interval_lo(5) == 0x3fffff94);
        } else if x == 227 {
            assert(code_of(5) == (0xfffffe5u32, 28u8));
            assert(code_of(6) == (0xfffffe6u32, 28u8));
            assert(symbol_in_code_order(227) == 5);
            assert(symbol_in_code_order(228) == 6);
            assert(interval_lo(5) == 0x3fffff94);
            assert(interval_width(5) == 0x4);
            assert(interval_lo(6) == 0x3fffff98);
        } else if x == 228 {
            assert(code_of(6) == (0xfffffe6u32, 28u8));
            assert(code_of(7) == (0xfffffe7u32, 28u8));
            assert(symbol_in_code_order(228) == 6);
            assert(symbol_in_code_order(229) == 7);
            assert(interval_lo(6) == 0x3fffff98);
            assert(interval_width(6) == 0x4);
            assert(interval_lo(7) == 0x3fffff9c);
        } else if x == 229 {
            assert(code_of(7) == (0xfffffe7u32, 28u8));
            assert(code_of(8) == (0xfffffe8u32, 28u8));
            assert(symbol_in_code_order(229) == 7);
            assert(symbol_in_code_order(230) == 8);
            assert(interval_lo(7) == 0x3fffff9c);
            assert(interval_width(7) == 0x4);
            assert(interval_lo(8) == 0x3fffffa0);
        } else if x == 230 {
            assert(code_of(8) == (0xfffffe8u32, 28u8));
            assert(code_of(11) == (0xfffffe9u32, 28u8));
            assert(symbol_in_code_order(230) == 8);
            assert(symbol_in_code_order(231) == 11);
            assert(interval_lo(8) == 0x3fffffa0);
            assert(interval_width(8) == 0x4);
            assert(interval_lo(11) == 0x3fffffa4);
        } else if x == 231 {
            assert(code_of(11) == (0xfffffe9u32, 28u8));
            assert(code_of(12) == (0xfffffeau32, 28u8));
            assert(symbol_in_code_order(231) == 11);
            assert(symbol_in_code_order(232) == 12);
            assert(interval_lo(11) == 0x3fffffa4);
            assert(interval_width(11) == 0x4);
            assert(interval_lo(12) == 0x3fffffa8);
        } else if x == 232 {
            assert(code_of(12) == (0xfffffeau32, 28u8));
            assert(code_of(14) == (0xfffffebu32, 28u8));
            assert(symbol_in_code_order(232) == 12);
            assert(symbol_in_code_order(233) == 14);
            assert(interval_lo(12) == 0x3fffffa8);
            assert(interval_width(12) == 0x4);
            assert(interval_lo(14) == 0x3fffffac);
        } else if x == 233 {
            assert(code_of(14) == (0xfffffebu32, 28u8));
            assert(code_of(15) == (0xfffffecu32, 28u8));
            assert(symbol_in_code_order(233) == 14);
            assert(symbol_in_code_order(234) == 15);
            assert(interval_lo(14) == 0x3fffffac);
            assert(interval_width(14) == 0x4);
            assert(interval_lo(15) == 0x3fffffb0);
        } else if x == 234 {
            assert(code_of(15) == (0xfffffecu32, 28u8));
            assert(code_of(16) == (0xfffffedu32, 28u8));
            assert(symbol_in_code_order(234) == 15);
            assert(symbol_in_code_order(235) == 16);
            assert(interval_lo(15) == 0x3fffffb0);
            assert(interval_width(15) == 0x4);
            assert(interval_lo(16) == 0x3fffffb4);
        } else if x == 235 {
            assert(code_of(16) == (0xfffffedu32, 28u8));
            assert(code_of(17) == (0xfffffeeu32, 28u8));
            assert(symbol_in_code_order(235) == 16);
            assert(symbol_in_code_order(236) == 17);
            assert(interval_lo(16) == 0x3fffffb4);
            assert(interval_width(16) == 0x4);
            assert(interval_lo(17) == 0x3fffffb8);
        } else if x == 236 {
            assert(code_of(17) == (0xfffffeeu32, 28u8));
            assert(code_of(18) == (0xfffffefu32, 28u8));
            assert(symbol_in_code_order(236) == 17);
            assert(symbol_in_code_order(237) == 18);
            assert(interval_lo(17) == 0x3fffffb8);
            assert(interval_width(17) == 0x4);
            assert(interval_lo(18) == 0x3fffffbc);
        } else if x == 237 {
            assert(code_of(18) == (0xfffffefu32, 28u8));
            assert(code_of(19) == (0xffffff0u32, 28u8));
            assert(symbol_in_code_order(237) == 18);
            assert(symbol_in_code_order(238) == 19);
            assert(interval_lo(18) == 0x3fffffbc);
            assert(interval_width(18) == 0x4);
            assert(interval_lo(19) == 0x3fffffc0);
        } else if x == 238 {
            assert(code_of(19) == (0xffffff0u32, 28u8));
            assert(code_of(20) == (0xffffff1u32, 28u8));
            assert(symbol_in_code_order(238) == 19);
            assert(symbol_in_code_order(239) == 20);
            assert(interval_lo(19) == 0x3fffffc0);
            assert(interval_width(19) == 0x4);
            assert(interval_lo(20) == 0x3fffffc4);
        } else if x == 239 {
            assert(code_of(20) == (0xffffff1u32, 28u8));
            assert(code_of(21) == (0xffffff2u32, 28u8));
            assert(symbol_in_code_order(239) == 20);
            assert(symbol_in_code_order(240) == 21);
            assert(interval_lo(20) == 0x3fffffc4);
            assert(interval_width(20) == 0x4);
            assert(interval_lo(21) == 0x3fffffc8);
        }
}

proof fn lemma_code_order_adjacent_240(x: u16)
    requires
        240 <= x < 256,
    ensures
        interval_lo(symbol_in_code_order(x)) + interval_width(symbol_in_code_order(x)) == interval_lo(symbol_in_code_order((x + 1) as u16)),
{
    lemma2_to64();
    if x == 240 {
            assert(code_of(21) == (0xffffff2u32, 28u8));
            assert(code_of(23) == (0xffffff3u32, 28u8));
            assert(symbol_in_code_order(240) == 21);
            assert(symbol_in_code_order(241) == 23);
            assert(interval_lo(21) == 0x3fffffc8);
            assert(interval_width(21) == 0x4);
            assert(interval_lo(23) == 0x3fffffcc);
        } else if x == 241 {
            assert(code_of(23) == (0xffffff3u32, 28u8));
            assert(code_of(24) == (0xffffff4u32, 28u8));
            assert(symbol_in_code_order(241) == 23);
            assert(symbol_in_code_order(242) == 24);
            assert(interval_lo(23) == 0x3fffffcc);
            assert(interval_width(23) == 0x4);
            assert(interval_lo(24) == 0x3fffffd0);
        } else if x == 242 {
            assert(code_of(24) == (0xffffff4u32, 28u8));
            assert(code_of(25) == (0xffffff5u32, 28u8));
            assert(symbol_in_code_order(242) == 24);
            assert(symbol_in_code_order(243) == 25);
            assert(interval_lo(24) == 0x3fffffd0);
            assert(interval_width(24) == 0x4);
            assert(interval_lo(25) == 0x3fffffd4);
        } else if x == 243 {
            assert(code_of(25) == (0xffffff5u32, 28u8));
            assert(code_of(26) == (0xffffff6u32, 28u8));
            assert(symbol_in_code_order(243) == 25);
            assert(symbol_in_code_order(244) == 26);
            assert(interval_lo(25) == 0x3fffffd4);
            assert(interval_width(25) == 0x4);
            assert(interval_lo(26) == 0x3fffffd8);
        } else if x == 244 {
            assert(code_of(26) == (0xffffff6u32, 28u8));
            assert(code_of(27) == (0xffffff7u32, 28u8));
            assert(symbol_in_code_order(244) == 26);
            assert(symbol_in_code_order(245) == 27);
            assert(interval_lo(26) == 0x3fffffd8);
            assert(interval_width(26) == 0x4);
            assert(interval_lo(27) == 0x3fffffdc);
        } else if x == 245 {
            assert(code_of(27) == (0xffffff7u32, 28u8));
            assert(code_of(28) == (0xffffff8u32, 28u8));
            assert(symbol_in_code_order(245) == 27);
            assert(symbol_in_code_order(246) == 28);
            assert(interval_lo(27) == 0x3fffffdc);
            assert(interval_width(27) == 0x4);
            assert(interval_lo(28) == 0x3fffffe0);
        } else if x == 246 {
            assert(code_of(28) == (0xffffff8u32, 28u8));
            assert(code_of(29) == (0xffffff9u32, 28u8));
            assert(symbol_in_code_order(246) == 28);
            assert(symbol_in_code_order(247) == 29);
            assert(interval_lo(28) == 0x3fffffe0);
            assert(interval_width(28) == 0x4);
            assert(interval_lo(29) == 0x3fffffe4);
        } else if x == 247 {
            assert(code_of(29) == (0xffffff9u32, 28u8));
            assert(code_of(30) == (0xffffffau32, 28u8));
            assert(symbol_in_code_order(247) == 29);
            assert(symbol_in_code_order(248) == 30);
            assert(interval_lo(29) == 0x3fffffe4);
            assert(interval_width(29) == 0x4);
            assert(interval_lo(30) == 0x3fffffe8);
        } else if x == 248 {
            assert(code_of(30) == (0xffffffau32, 28u8));
            assert(code_of(31) == (0xffffffbu32, 28u8));
            assert(symbol_in_code_order(248) == 30);
            assert(symbol_in_code_order(249) == 31);
            assert(interval_lo(30) == 0x3fffffe8);
            assert(interval_width(30) == 0x4);
            assert(interval_lo(31) == 0x3fffffec);
        } else if x == 249 {
            assert(code_of(31) == (0xffffffbu32, 28u8));
            assert(code_of(127) == (0xffffffcu32, 28u8));
            assert(symbol_in_code_order(249) == 31);
            assert(symbol_in_code_order(250) == 127);
            assert(interval_lo(31) == 0x3fffffec);
            assert(interval_width(31) == 0x4);
            assert(interval_lo(127) == 0x3ffffff0);
        } else if x == 250 {
            assert(code_of(127) == (0xffffffcu32, 28u8));
            assert(code_of(220) == (0xffffffdu32, 28u8));
            assert(symbol_in_code_order(250) == 127);
            assert(symbol_in_code_order(251) == 220);
            assert(interval_lo(127) == 0x3ffffff0);
            assert(interval_width(127) == 0x4);
            assert(interval_lo(220) == 0x3ffffff4);
        } else if x == 251 {
            assert(code_of(220) == (0xffffffdu32, 28u8));
            assert(code_of(249) == (0xffffffeu32, 28u8));
            assert(symbol_in_code_order(251) == 220);
            assert(symbol_in_code_order(252) == 249);
            assert(interval_lo(220) == 0x3ffffff4);
            assert(interval_width(220) == 0x4);
            assert(interval_lo(249) == 0x3ffffff8);
        } else if x == 252 {
            assert(code_of(249) == (0xffffffeu32, 28u8));
            assert(code_of(10) == (0x3ffffffcu32, 30u8));
            assert(symbol_in_code_order(252) == 249);
            assert(symbol_in_code_order(253) == 10);
            assert(interval_lo(249) == 0x3ffffff8);
            assert(interval_width(249) == 0x4);
            assert(interval_lo(10) == 0x3ffffffc);
        } else if x == 253 {
            assert(code_of(10) == (0x3ffffffcu32, 30u8));
            assert(code_of(13) == (0x3ffffffdu32, 30u8));
            assert(symbol_in_code_order(253) == 10);
            assert(symbol_in_code_order(254) == 13);
            assert(interval_lo(10) == 0x3ffffffc);
            assert(interval_width(10) == 0x1);
            assert(interval_lo(13) == 0x3ffffffd);
        } else if x == 254 {
            assert(code_of(13) == (0x3ffffffdu32, 30u8));
            assert(code_of(22) == (0x3ffffffeu32, 30u8));
            assert(symbol_in_code_order(254) == 13);
            assert(symbol_in_code_order(255) == 22);
            assert(interval_lo(13) == 0x3ffffffd);
            assert(interval_width(13) == 0x1);
            assert(interval_lo(22) == 0x3ffffffe);
        } else if x == 255 {
            assert(code_of(22) == (0x3ffffffeu32, 30u8));
            assert(code_of(256) == (0x3fffffffu32, 30u8));
            assert(symbol_in_code_order(255) == 22);
            assert(symbol_in_code_order(256) == 256);
            assert(interval_lo(22) == 0x3ffffffe);
            assert(interval_width(22) == 0x1);
            assert(interval_lo(256) == 0x3fffffff);
        }
}

/// Every symbol has a place in the code order, and a code of 5 to 30 bits.
proof fn lemma_code_order_inverse(x: u16)
    requires
        x <= 256,
    ensures
        code_order_of(x) <= 256,
        symbol_in_code_order(code_order_of(x)) == x,
        5 <= code_of(x).1 <= 30,
{
    if x < 32 {
        lemma_code_order_inverse_0(x);
    } else if x < 64 {
        lemma_code_order_inverse_32(x);
    } else if x < 96 {
        lemma_code_order_inverse_64(x);
    } else if x < 128 {
        lemma_code_order_inverse_96(x);
    } else if x < 160 {
        lemma_code_order_inverse_128(x);
    } else if x < 192 {
        lemma_code_order_inverse_160(x);
    } else if x < 224 {
        lemma_code_order_inverse_192(x);
    } else if x < 256 {
        lemma_code_order_inverse_224(x);
    } else if x < 257 {
        lemma_code_order_inverse_256(x);
    }
}

/// Consecutive codes in code order cover adjacent intervals.
proof fn lemma_code_order_adjacent(x: u16)
    requires
        x < 256,
    ensures
        interval_lo(symbol_in_code_order(x)) + interval_width(symbol_in_code_order(x))
            == interval_lo(symbol_in_code_order((x + 1) as u16)),
{
    if x < 16 {
        lemma_code_order_adjacent_0(x);
    } else if x < 32 {
        lemma_code_order_adjacent_16(x);
    } else if x < 48 {
        lemma_code_order_adjacent_32(x);
    } else if x < 64 {
        lemma_code_order_adjacent_48(x);
    } else if x < 80 {
        lemma_code_order_adjacent_64(x);
    } else if x < 96 {
        lemma_code_order_adjacent_80(x);
    } else if x < 112 {
        lemma_code_order_adjacent_96(x);
    } else if x < 128 {
        lemma_code_order_adjacent_112(x);
    } else if x < 144 {
        lemma_code_order_adjacent_128(x);
    } else if x < 160 {
        lemma_code_order_adjacent_144(x);
    } else if x < 176 {
        lemma_code_order_adjacent_160(x);
    } else if x < 192 {
        lemma_code_order_adjacent_176(x);
    } else if x < 208 {
        lemma_code_order_adjacent_192(x);
    } else if x < 224 {
        lemma_code_order_adjacent_208(x);
    } else if x < 240 {
        lemma_code_order_adjacent_224(x);
    } else if x < 256 {
        lemma_code_order_adjacent_240(x);
    }
}

proof fn lemma_code_order_chain(k: u16, j: u16)
    requires
        k < j <= 256,
    ensures
        interval_lo(symbol_in_code_order(k)) + interval_width(symbol_in_code_order(k))
            <= interval_lo(symbol_in_code_order(j)),
    decreases j - k,
{
    lemma_code_order_adjacent((j - 1) as u16);
    if k + 1 < j {
        lemma_code_order_chain(k, (j - 1) as u16);
        lemma_pow2_pos((30 - code_of(symbol_in_code_order((j - 1) as u16)).1) as nat);
    }
}

/// The intervals of two different symbols do not overlap, and every
/// interval lies within the 30-bit strings.
proof fn lemma_intervals_disjoint(s: u16, t: u16)
    requires
        s <= 256,
        t <= 256,
        s != t,
    ensures
        interval_lo(s) + interval_width(s) <= interval_lo(t) || interval_lo(t) + interval_width(
            t,
        ) <= interval_lo(s),
{
    lemma_code_order_inverse(s);
    lemma_code_order_inverse(t);
    let rs = code_order_of(s);
    let rt = code_order_of(t);
    if rs < rt {
        lemma_code_order_chain(rs, rt);
    } else {
        lemma_code_order_chain(rt, rs);
    }
}

/// The Huffman code is prefix-free: when the code of `t` is a prefix of the
/// code of `c`, the two are the same symbol.
proof fn lemma_prefix_free(t: u16, c: u16)
    requires
        t <= 256,
        c <= 256,
        code_of(t).1 <= code_of(c).1,
        code_of(t).0 == code_of(c).0 as int / pow2((code_of(c).1 - code_of(t).1) as nat) as int,
    ensures
        t == c,
{
    lemma_code_order_inverse(t);
    lemma_code_order_inverse(c);
    let lt = code_of(t).1 as nat;
    let lc = code_of(c).1 as nat;
    let d = (lc - lt) as nat;
    let pd = pow2(d) as int;
    let wc = pow2((30 - lc) as nat) as int;
    let wt = pow2((30 - lt) as nat) as int;
    let ct = code_of(t).0 as int;
    let cc = code_of(c).0 as int;
    lemma_pow2_pos(d);
    lemma_pow2_pos((30 - lc) as nat);
    lemma_pow2_adds(d, (30 - lc) as nat);
    assert(wt == pd * wc);
    lemma_fundamental_div_mod(cc, pd);
    let r = cc % pd;
    assert(0 <= r < pd);
    assert(cc == pd * ct + r);
    assert(interval_lo(c) == cc * wc);
    assert(interval_lo(t) == ct * wt);
    assert(ct * wt <= cc * wc < ct * wt + wt) by (nonlinear_arith)
        requires
            cc == pd * ct + r,
            0 <= r < pd,
            wt == pd * wc,
            wc > 0,
    ;
    if t != c {
        lemma_intervals_disjoint(t, c);
    }
}


/// Every code lies within the 30-bit strings: `code < 2^len`.
proof fn lemma_code_fits(sym: u16)
    requires
        sym <= 256,
    ensures
        (code_of(sym).0 as int) < pow2(code_of(sym).1 as nat),
        5 <= code_of(sym).1 <= 30,
{
    lemma_code_order_inverse(sym);
    let k = code_order_of(sym);
    lemma2_to64();
    assert(code_of(256) == (0x3fffffffu32, 30u8));
    assert(interval_lo(256) + interval_width(256) == 0x40000000);
    if k < 256 {
        lemma_code_order_chain(k, 256);
        lemma_code_order_inverse(256);
        assert(interval_lo(256) < 0x40000000);
    }
    assert(interval_lo(sym) + interval_width(sym) <= 0x40000000);
    let l = code_of(sym).1 as nat;
    let c = code_of(sym).0 as int;
    let w = pow2((30 - l) as nat) as int;
    lemma_pow2_adds(l, (30 - l) as nat);
    lemma_pow2_pos((30 - l) as nat);
    assert(pow2(l) * w == 0x40000000);
    assert(c < pow2(l)) by (nonlinear_arith)
        requires
            c * w + w <= pow2(l) * w,
            w > 0,
    ;
}

/// Bit `k` of `x`, counting from the least significant bit.
pub open spec fn bit_of(x: int, k: nat) -> bool {
    (x / pow2(k) as int) % 2 == 1
}

/// The number that `bits` spell, most significant bit first.
pub open spec fn bits_value(bits: Seq<bool>) -> nat
    decreases bits.len(),
{
    if bits.len() == 0 {
        0
    } else {
        bits_value(bits.drop_last()) * 2 + (if bits.last() {
            1nat
        } else {
            0nat
        })
    }
}

/// The `n` low bits of `x`, most significant first.
pub open spec fn low_bits(x: int, n: nat) -> Seq<bool> {
    Seq::new(n, |i: int| bit_of(x, (n - 1 - i) as nat))
}

/// The bits of the code of `sym`, most significant first.
pub open spec fn code_bits(sym: u16) -> Seq<bool> {
    low_bits(code_of(sym).0 as int, code_of(sym).1 as nat)
}

/// The bits of the codes of the octets of `input`, one after the other.
pub open spec fn symbol_bits(input: Seq<u8>) -> Seq<bool>
    decreases input.len(),
{
    if input.len() == 0 {
        Seq::empty()
    } else {
        symbol_bits(input.drop_last()) + code_bits(input.last() as u16)
    }
}

/// How many one-bits complete `n` bits to a whole number of octets.
pub open spec fn padding_len(n: nat) -> nat {
    ((8 - n % 8) % 8) as nat
}

/// `n` one-bits: the high-order bits of the EOS code, used as padding.
pub open spec fn ones(n: nat) -> Seq<bool> {
    Seq::new(n, |i: int| true)
}

/// The codes of `input` followed by the padding to a whole octet.
pub open spec fn padded_bits(input: Seq<u8>) -> Seq<bool> {
    symbol_bits(input) + ones(padding_len(symbol_bits(input).len()))
}

/// `bits` packed into octets, eight per octet, most significant bit first.
pub open spec fn pack_bits(bits: Seq<bool>) -> Seq<u8> {
    Seq::new(bits.len() / 8, |k: int| bits_value(bits.subrange(8 * k, 8 * k + 8)) as u8)
}

/// The Huffman encoding of `input` (RFC 7541 §5.2).
pub open spec fn huffman_encoding(input: Seq<u8>) -> Seq<u8> {
    pack_bits(padded_bits(input))
}

/// The bits of `bytes`, most significant bit of each octet first.
pub open spec fn bytes_bits(bytes: Seq<u8>) -> Seq<bool> {
    Seq::new(bytes.len() * 8, |j: int| bit_of(bytes[j / 8] as int, (7 - j % 8) as nat))
}

proof fn lemma_bit_of_half(x: int, k: nat)
    requires
        x >= 0,
    ensures
        bit_of(x, k + 1) == bit_of(x / 2, k),
        bit_of(x, 0) == (x % 2 == 1),
{
    lemma_pow2_pos(k);
    lemma_pow2_unfold(k + 1);
    lemma2_to64();
    lemma_div_denominator(x, 2, pow2(k) as int);
    assert(x / 1 == x);
}

proof fn lemma_bits_value_bound(bits: Seq<bool>)
    ensures
        bits_value(bits) < pow2(bits.len()),
    decreases bits.len(),
{
    if bits.len() > 0 {
        lemma_bits_value_bound(bits.drop_last());
        lemma_pow2_unfold(bits.len());
    } else {
        lemma2_to64();
    }
}

proof fn lemma_bits_value_concat(a: Seq<bool>, b: Seq<bool>)
    ensures
        bits_value(a + b) == bits_value(a) * pow2(b.len()) + bits_value(b),
    decreases b.len(),
{
    if b.len() == 0 {
        assert(a + b =~= a);
        lemma2_to64();
        assert(bits_value(b) == 0);
        assert(bits_value(a) * pow2(b.len()) == bits_value(a));
    } else {
        assert((a + b).drop_last() =~= a + b.drop_last());
        assert((a + b).last() == b.last());
        lemma_bits_value_concat(a, b.drop_last());
        lemma_pow2_unfold(b.len());
        let va = bits_value(a);
        let p = pow2((b.len() - 1) as nat);
        let l: nat = if b.last() {
            1
        } else {
            0
        };
        assert(bits_value(a + b) == bits_value(a + b.drop_last()) * 2 + l);
        assert(bits_value(b) == bits_value(b.drop_last()) * 2 + l);
        assert(pow2(b.len()) == p * 2);
        assert((va * p + bits_value(b.drop_last())) * 2 == va * (p * 2) + bits_value(b.drop_last())
            * 2) by (nonlinear_arith);
        assert(bits_value(a + b.drop_last()) == va * p + bits_value(b.drop_last()));
    }
}

proof fn lemma_bits_value_ones(n: nat)
    ensures
        bits_value(ones(n)) + 1 == pow2(n),
    decreases n,
{
    if n == 0 {
        lemma2_to64();
    } else {
        assert(ones(n).drop_last() =~= ones((n - 1) as nat));
        lemma_bits_value_ones((n - 1) as nat);
        lemma_pow2_unfold(n);
    }
}

/// Reading back the bits of a number below `2^n` gives the number.
proof fn lemma_low_bits_value(x: int, n: nat)
    requires
        0 <= x < pow2(n),
    ensures
        bits_value(low_bits(x, n)) == x,
    decreases n,
{
    if n == 0 {
        lemma2_to64();
    } else {
        let s = low_bits(x, n);
        assert forall|i: int| 0 <= i < n - 1 implies s.drop_last()[i] == low_bits(x / 2, (n - 1) as nat)[i] by {
            lemma_bit_of_half(x, (n - 2 - i) as nat);
        }
        assert(s.drop_last() =~= low_bits(x / 2, (n - 1) as nat));
        lemma_pow2_unfold(n);
        lemma_bit_of_half(x, 0);
        assert(x / 2 < pow2((n - 1) as nat));
        lemma_low_bits_value(x / 2, (n - 1) as nat);
    }
}

/// Bit `i` of `bits`, counting from the most significant, is the bit of
/// their value at that position.
proof fn lemma_bits_value_bit(bits: Seq<bool>, i: int)
    requires
        0 <= i < bits.len(),
    ensures
        bit_of(bits_value(bits) as int, (bits.len() - 1 - i) as nat) == bits[i],
    decreases bits.len(),
{
    let v = bits_value(bits) as int;
    let vp = bits_value(bits.drop_last()) as int;
    lemma_bit_of_half(v, (bits.len() - 2 - i) as nat);
    assert(v / 2 == vp);
    if i < bits.len() - 1 {
        lemma_bits_value_bit(bits.drop_last(), i);
    }
}

/// Unpacking packed bits gives the bits back.
proof fn lemma_bytes_bits_pack(bits: Seq<bool>)
    requires
        bits.len() % 8 == 0,
    ensures
        bytes_bits(pack_bits(bits)) == bits,
{
    let bytes = pack_bits(bits);
    assert(bytes.len() * 8 == bits.len());
    assert forall|j: int| 0 <= j < bits.len() implies bytes_bits(bytes)[j] == bits[j] by {
        let k = j / 8;
        let m = j % 8;
        assert(j == 8 * k + m);
        let sub = bits.subrange(8 * k, 8 * k + 8);
        lemma_bits_value_bound(sub);
        lemma2_to64();
        assert(bytes[k] as int == bits_value(sub));
        lemma_bits_value_bit(sub, m);
    }
    assert(bytes_bits(bytes) =~= bits);
}


/// The first symbol, from `from` on, whose code is `code` of `len` bits.
pub open spec fn find_symbol(code: int, len: int, from: int) -> Option<u16>
    decreases 257 - from,
{
    if from < 0 || from > 256 {
        None
    } else if code_of(from as u16).0 == code && code_of(from as u16).1 == len {
        Some(from as u16)
    } else {
        find_symbol(code, len, from + 1)
    }
}

/// Decoding `bits` from position `i`, with the bits read since the last
/// symbol spelling `code` in `len` bits and `out` decoded so far. A symbol
/// is emitted as soon as the pending bits form its code; the EOS symbol, or
/// 30 bits that form no code, make the string invalid; at the end, the
/// pending bits must be fewer than 8 and all ones.
pub open spec fn decode_bits_from(bits: Seq<bool>, i: int, code: int, len: int, out: Seq<u8>) -> Option<
    Seq<u8>,
>
    decreases bits.len() - i,
{
    if i >= bits.len() {
        if len < 8 && code + 1 == pow2(len as nat) {
            Some(out)
        } else {
            None
        }
    } else {
        let c2 = 2 * code + (if bits[i] {
            1int
        } else {
            0int
        });
        let l2 = len + 1;
        match find_symbol(c2, l2, 0) {
            Some(sym) => if sym == EOS_SYMBOL {
                None
            } else {
                decode_bits_from(bits, i + 1, 0, 0, out.push(sym as u8))
            },
            None => if l2 >= 30 {
                None
            } else {
                decode_bits_from(bits, i + 1, c2, l2, out)
            },
        }
    }
}

/// The Huffman decoding of `input`, or `None` where it is not a valid
/// Huffman-encoded string.
pub open spec fn huffman_decoding(input: Seq<u8>) -> Option<Seq<u8>> {
    decode_bits_from(bytes_bits(input), 0, 0, 0, Seq::empty())
}

proof fn lemma_find_symbol_sound(code: int, len: int, from: int)
    ensures
        find_symbol(code, len, from) matches Some(u) ==> from <= u <= 256 && code_of(u).0 == code
            && code_of(u).1 == len,
    decreases 257 - from,
{
    if 0 <= from <= 256 {
        lemma_find_symbol_sound(code, len, from + 1);
    }
}

proof fn lemma_find_symbol_finds(code: int, len: int, from: int, u: u16)
    requires
        0 <= from <= u <= 256,
        code_of(u).0 == code,
        code_of(u).1 == len,
    ensures
        find_symbol(code, len, from) == Some(u),
    decreases 257 - from,
{
    if code_of(from as u16).0 == code && code_of(from as u16).1 == len {
        lemma2_to64();
        assert(code_of(from as u16).0 as int == code_of(u).0 as int / pow2(0) as int);
        lemma_prefix_free(from as u16, u);
    } else {
        lemma_find_symbol_finds(code, len, from + 1, u);
    }
}

proof fn lemma_shift_step(x: int, m: nat)
    requires
        x >= 0,
    ensures
        2 * (x / pow2(m + 1) as int) + (if bit_of(x, m) {
            1int
        } else {
            0int
        }) == x / pow2(m) as int,
{
    lemma_pow2_pos(m);
    lemma_pow2_unfold(m + 1);
    let y = x / pow2(m) as int;
    lemma_div_denominator(x, pow2(m) as int, 2);
    assert(x / pow2(m + 1) as int == y / 2);
    lemma_div_pos_is_pos(x, pow2(m) as int);
    lemma_fundamental_div_mod(y, 2);
}

proof fn lemma_decode_symbol_from(bits: Seq<bool>, i: int, c: u16, t: int, out: Seq<u8>)
    requires
        c < 256,
        0 <= i,
        0 <= t < code_of(c).1,
        i + code_of(c).1 <= bits.len(),
        bits.subrange(i, i + code_of(c).1) == code_bits(c),
    ensures
        decode_bits_from(
            bits,
            i + t,
            code_of(c).0 as int / pow2((code_of(c).1 - t) as nat) as int,
            t,
            out,
        ) == decode_bits_from(bits, i + code_of(c).1, 0, 0, out.push(c as u8)),
    decreases code_of(c).1 - t,
{
    let len = code_of(c).1 as int;
    let x = code_of(c).0 as int;
    lemma_code_fits(c);
    let m = (len - t - 1) as nat;
    assert(bits[i + t] == code_bits(c)[t]);
    assert(code_bits(c)[t] == bit_of(x, m));
    lemma_shift_step(x, m);
    let c2 = x / pow2(m) as int;
    let l2 = t + 1;
    lemma_find_symbol_sound(c2, l2, 0);
    if l2 == len {
        lemma2_to64();
        assert(m == 0);
        assert(pow2(m) == 1);
        assert(x / 1 == x);
        assert(c2 == x);
        lemma_find_symbol_finds(x, len, 0, c);
    } else {
        if let Some(u) = find_symbol(c2, l2, 0) {
            lemma_prefix_free(u, c);
        }
        lemma_decode_symbol_from(bits, i, c, t + 1, out);
    }
}

/// Reading the code of an octet symbol emits that symbol.
proof fn lemma_decode_symbol(bits: Seq<bool>, i: int, c: u16, out: Seq<u8>)
    requires
        c < 256,
        0 <= i,
        i + code_of(c).1 <= bits.len(),
        bits.subrange(i, i + code_of(c).1) == code_bits(c),
    ensures
        decode_bits_from(bits, i, 0, 0, out) == decode_bits_from(
            bits,
            i + code_of(c).1,
            0,
            0,
            out.push(c as u8),
        ),
{
    lemma_code_fits(c);
    let len = code_of(c).1 as nat;
    let x = code_of(c).0 as int;
    lemma_pow2_pos(len);
    lemma_basic_div(x, pow2(len) as int);
    lemma_decode_symbol_from(bits, i, c, 0, out);
}

proof fn lemma_decode_symbols(input: Seq<u8>, tail: Seq<bool>)
    ensures
        decode_bits_from(symbol_bits(input) + tail, 0, 0, 0, Seq::empty()) == decode_bits_from(
            symbol_bits(input) + tail,
            symbol_bits(input).len() as int,
            0,
            0,
            input,
        ),
    decreases input.len(),
{
    if input.len() > 0 {
        let pre = input.drop_last();
        let c = input.last() as u16;
        let bits = symbol_bits(input) + tail;
        let sp = symbol_bits(pre);
        let cb = code_bits(c);
        assert(bits =~= symbol_bits(pre) + (cb + tail));
        lemma_decode_symbols(pre, cb + tail);
        assert(bits.subrange(sp.len() as int, (sp.len() + cb.len()) as int) =~= cb);
        lemma_decode_symbol(bits, sp.len() as int, c, pre);
        assert(pre.push(input.last()) =~= input);
    } else {
        assert(input =~= Seq::<u8>::empty());
    }
}

proof fn lemma_all_ones_div(k: nat)
    requires
        k <= 30,
    ensures
        (pow2(30) as int - 1) / pow2(k) as int == pow2((30 - k) as nat) as int - 1,
{
    lemma_pow2_adds((30 - k) as nat, k);
    lemma_pow2_pos(k);
    lemma_pow2_pos((30 - k) as nat);
    let a = pow2((30 - k) as nat) as int;
    let b = pow2(k) as int;
    assert(a * b - 1 == b * (a - 1) + (b - 1)) by (nonlinear_arith);
    lemma_fundamental_div_mod_converse(a * b - 1, b, a - 1, b - 1);
}

proof fn lemma_decode_padding_from(bits: Seq<bool>, i: int, p: int, t: int, out: Seq<u8>)
    requires
        0 <= i,
        0 <= t <= p <= 7,
        i + p == bits.len(),
        bits.subrange(i, i + p) == ones(p as nat),
    ensures
        decode_bits_from(bits, i + t, pow2(t as nat) - 1, t, out) == Some(out),
    decreases p - t,
{
    lemma2_to64();
    if t < p {
        assert(bits[i + t] == ones(p as nat)[t]);
        let c2 = 2 * (pow2(t as nat) - 1) + 1;
        lemma_pow2_unfold((t + 1) as nat);
        assert(c2 == pow2((t + 1) as nat) - 1);
        lemma_find_symbol_sound(c2, t + 1, 0);
        if let Some(u) = find_symbol(c2, t + 1, 0) {
            lemma_all_ones_div((30 - (t + 1)) as nat);
            assert(code_of(256) == (0x3fffffffu32, 30u8));
            lemma_prefix_free(u, 256);
        }
        lemma_decode_padding_from(bits, i, p, t + 1, out);
    }
}

/// The Huffman encoding of `input` takes as many octets as its codes take
/// bits, rounded up to whole octets; its bits are the codes of `input`, one
/// after the other, followed by fewer than eight one-bits (the high-order
/// bits of the EOS code).
pub proof fn lemma_huffman_encoding_len(input: Seq<u8>)
    ensures
        huffman_encoding(input).len() == (symbol_bits(input).len() + 7) / 8,
        bytes_bits(huffman_encoding(input)) == symbol_bits(input) + ones(
            padding_len(symbol_bits(input).len()),
        ),
        padding_len(symbol_bits(input).len()) < 8,
{
    let n = symbol_bits(input).len();
    assert((n + padding_len(n)) / 8 == (n + 7) / 8) by (nonlinear_arith)
        requires
            padding_len(n) == (8 - n % 8) % 8,
    ;
    let bits = padded_bits(input);
    assert(bits.len() % 8 == 0) by (nonlinear_arith)
        requires
            bits.len() == n + (8 - n % 8) % 8,
    ;
    lemma_bytes_bits_pack(bits);
}

/// Decoding what `huffman_encoding` produces gives the input back.
pub proof fn lemma_huffman_roundtrip(input: Seq<u8>)
    ensures
        huffman_decoding(huffman_encoding(input)) == Some(input),
{
    let sb = symbol_bits(input);
    let p = padding_len(sb.len());
    let bits = padded_bits(input);
    assert(bits.len() % 8 == 0);
    lemma_bytes_bits_pack(bits);
    lemma_decode_symbols(input, ones(p));
    assert(bits.subrange(sb.len() as int, (sb.len() + p) as int) =~= ones(p));
    lemma_decode_padding_from(bits, sb.len() as int, p as int, 0, input);
    lemma2_to64();
}


proof fn lemma_symbol_bits_step(input: Seq<u8>, idx: int)
    requires
        0 <= idx < input.len(),
    ensures
        symbol_bits(input.take(idx + 1)) == symbol_bits(input.take(idx)) + code_bits(
            input[idx] as u16,
        ),
        code_bits(input[idx] as u16).len() == code_of(input[idx] as u16).1,
{
    assert(input.take(idx + 1).drop_last() =~= input.take(idx));
    assert(input.take(idx + 1).last() == input[idx]);
}

proof fn lemma_pack_append(y: Seq<bool>, x: Seq<bool>)
    requires
        y.len() % 8 == 0,
        x.len() == 8,
    ensures
        pack_bits(y + x) == pack_bits(y).push(bits_value(x) as u8),
{
    let k = y.len() / 8;
    assert forall|j: int| 0 <= j < k + 1 implies pack_bits(y + x)[j] == pack_bits(y).push(
        bits_value(x) as u8,
    )[j] by {
        if j < k {
            assert((y + x).subrange(8 * j, 8 * j + 8) =~= y.subrange(8 * j, 8 * j + 8));
        } else {
            assert((y + x).subrange(8 * j, 8 * j + 8) =~= x);
        }
    }
    assert(pack_bits(y + x) =~= pack_bits(y).push(bits_value(x) as u8));
}

/// The number of bits that the Huffman codes of `input` take, without the
/// padding: used by the encoder to decide whether Huffman coding is a net
/// win over the literal.
pub fn encoded_len_bits(input: &[u8]) -> (n: usize)
    requires
        input.len() * 30 <= usize::MAX,
    ensures
        n == symbol_bits(input@).len(),
{
    let mut total: usize = 0;
    let mut idx: usize = 0;
    while idx < input.len()
        invariant
            idx <= input.len(),
            input.len() * 30 <= usize::MAX,
            total == symbol_bits(input@.take(idx as int)).len(),
            total <= 30 * idx,
        decreases input.len() - idx,
    {
        let (_code, len) = code_entry(input[idx] as u16);
        proof {
            lemma_code_fits(input[idx as int] as u16);
            lemma_symbol_bits_step(input@, idx as int);
        }
        total = total + len as usize;
        idx = idx + 1;
    }
    assert(input@.take(idx as int) =~= input@);
    total
}

/// Huffman-encode `input`, per RFC 7541 §5.2, padding the final byte with
/// the high-order bits of the EOS code.
pub fn encode(input: &[u8]) -> (out: Vec<u8>)
    ensures
        out@ == huffman_encoding(input@),
{
    let mut out: Vec<u8> = Vec::with_capacity(input.len());
    let mut acc: u64 = 0;
    let mut bits: u32 = 0;
    let mut idx: usize = 0;
    proof {
        lemma2_to64();
        assert(symbol_bits(input@.take(0)) =~= Seq::<bool>::empty());
        assert(pack_bits(Seq::<bool>::empty()) =~= Seq::<u8>::empty());
    }
    while idx < input.len()
        invariant
            idx <= input.len(),
            bits < 8,
            acc < pow2(bits as nat),
            symbol_bits(input@.take(idx as int)).len() == 8 * out.len() + bits,
            out@ == pack_bits(symbol_bits(input@.take(idx as int)).take(8 * out.len())),
            acc == bits_value(symbol_bits(input@.take(idx as int)).skip(8 * out.len())),
        decreases input.len() - idx,
    {
        let ghost prev = symbol_bits(input@.take(idx as int));
        let ghost sym = input@[idx as int] as u16;
        let (code, len) = code_entry(input[idx] as u16);
        proof {
            lemma_code_fits(sym);
            lemma_symbol_bits_step(input@, idx as int);
            lemma2_to64();
            lemma_pow2_strictly_increases(len as nat, 64);
            lemma_u64_shl_is_mul(1u64, len as u64);
            lemma_pow2_adds(bits as nat, len as nat);
            lemma_low_bits_value(code as int, len as nat);
            lemma2_to64();
            lemma_pow2_strictly_increases((bits + len) as nat, 64);
            lemma_pow2_pos(len as nat);
        }
        let ghost s2 = symbol_bits(input@.take(idx + 1));
        let scale: u64 = 1u64 << len;
        proof {
            assert(scale == pow2(len as nat));
            assert(acc * scale + code < pow2((bits + len) as nat)) by (nonlinear_arith)
                requires
                    acc < pow2(bits as nat),
                    code < scale,
                    pow2((bits + len) as nat) == pow2(bits as nat) * scale,
            ;
            assert(s2.take(8 * out.len()) =~= prev.take(8 * out.len()));
            assert(s2.skip(8 * out.len()) =~= prev.skip(8 * out.len()) + code_bits(sym));
            lemma_bits_value_concat(prev.skip(8 * out.len()), code_bits(sym));
        }
        acc = acc * scale + code as u64;
        bits = bits + len as u32;
        while bits >= 8
            invariant
                bits < 38,
                acc < pow2(bits as nat),
                s2 == symbol_bits(input@.take(idx + 1)),
                s2.len() == 8 * out.len() + bits,
                out@ == pack_bits(s2.take(8 * out.len())),
                acc == bits_value(s2.skip(8 * out.len())),
            decreases bits,
        {
            let ghost k = out.len();
            bits = bits - 8;
            proof {
                lemma2_to64();
                lemma_pow2_strictly_increases(bits as nat, 64);
                lemma_u64_shl_is_mul(1u64, bits as u64);
                lemma_pow2_pos(bits as nat);
            }
            let p: u64 = 1u64 << bits;
            proof {
                let pend = s2.skip(8 * k);
                let a = pend.take(8);
                let b = pend.skip(8);
                assert(pend =~= a + b);
                lemma_bits_value_concat(a, b);
                lemma_bits_value_bound(a);
                lemma_bits_value_bound(b);
                lemma_fundamental_div_mod_converse(
                    acc as int,
                    p as int,
                    bits_value(a) as int,
                    bits_value(b) as int,
                );
                assert(s2.take(8 * k + 8) =~= s2.take(8 * k) + a);
                lemma_pack_append(s2.take(8 * k), a);
                assert(b =~= s2.skip(8 * k + 8));
            }
            out.push((acc / p) as u8);
            acc = acc % p;
        }
        idx = idx + 1;
    }
    let ghost sb = symbol_bits(input@);
    proof {
        assert(input@.take(idx as int) =~= input@);
    }
    if bits > 0 {
        let pad: u32 = 8 - bits;
        proof {
            lemma2_to64();
            lemma_u64_shl_is_mul(1u64, pad as u64);
            lemma_pow2_adds(bits as nat, pad as nat);
            lemma_bits_value_ones(pad as nat);
            let x = sb.skip(8 * out.len()) + ones(pad as nat);
            lemma_bits_value_concat(sb.skip(8 * out.len()), ones(pad as nat));
            assert(sb + ones(pad as nat) =~= sb.take(8 * out.len()) + x);
            assert(padding_len(sb.len()) == pad);
            lemma_pack_append(sb.take(8 * out.len()), x);
        }
        let p: u64 = 1u64 << pad;
        proof {
            assert(acc * p + (p - 1) < 256) by (nonlinear_arith)
                requires
                    acc < pow2(bits as nat),
                    pow2(bits as nat) * p == 256,
                    p >= 1,
            ;
        }
        out.push((acc * p + (p - 1)) as u8);
    } else {
        proof {
            assert(padding_len(sb.len()) == 0);
            assert(sb + ones(0) =~= sb.take(8 * out.len()));
        }
    }
    out
}

/// The error for a string that is not valid Huffman code.
pub open spec fn huffman_error() -> H2Error {
    H2Error::Connection(ErrorCode::CompressionError, "invalid Huffman-encoded string")
}

fn invalid() -> (e: H2Error)
    ensures
        e == huffman_error(),
{
    H2Error::Connection(ErrorCode::CompressionError, "invalid Huffman-encoded string")
}

/// The symbol whose code is `code` in `len` bits, if any.
fn lookup_symbol(code: u32, len: u8) -> (r: Option<u16>)
    ensures
        r == find_symbol(code as int, len as int, 0),
{
    let mut s: u16 = 0;
    while s <= 256
        invariant
            s <= 257,
            find_symbol(code as int, len as int, 0) == find_symbol(code as int, len as int, s as int),
        decreases 257 - s,
    {
        let (c, l) = code_entry(s);
        if c == code && l == len {
            return Some(s);
        }
        s = s + 1;
    }
    None
}

/// Huffman-decode a byte string, enforcing RFC 7541 §5.2's padding rules:
/// leftover bits at the end must be fewer than 8 and must equal the
/// high-order bits of the EOS code (i.e. all ones).
pub fn decode(input: &[u8]) -> (r: Result<Vec<u8>>)
    ensures
        match huffman_decoding(input@) {
            Some(v) => r matches Ok(o) && o@ == v,
            None => r == Err::<Vec<u8>, H2Error>(huffman_error()),
        },
{
    let ghost all = bytes_bits(input@);
    let mut out: Vec<u8> = Vec::new();
    let mut code: u32 = 0;
    let mut len: u8 = 0;
    let mut all_ones = true;
    let mut j: usize = 0;
    proof {
        lemma2_to64();
    }
    while j < input.len()
        invariant
            j <= input.len(),
            all == bytes_bits(input@),
            all.len() == 8 * input.len(),
            len < 30,
            code < pow2(len as nat),
            all_ones == (code + 1 == pow2(len as nat)),
            huffman_decoding(input@) == decode_bits_from(all, 8 * j, code as int, len as int, out@),
        decreases input.len() - j,
    {
        let byte = input[j];
        let mut i: u8 = 0;
        while i < 8
            invariant
                j < input.len(),
                i <= 8,
                byte == input@[j as int],
                all == bytes_bits(input@),
                all.len() == 8 * input.len(),
                len < 30,
                code < pow2(len as nat),
                all_ones == (code + 1 == pow2(len as nat)),
                huffman_decoding(input@) == decode_bits_from(
                    all,
                    8 * j + i,
                    code as int,
                    len as int,
                    out@,
                ),
            decreases 8 - i,
        {
            let bit: u32 = ((byte >> (7 - i)) & 1) as u32;
            proof {
                let sh = (7 - i) as u8;
                vstd::bits::lemma_u8_shr_is_div(byte, sh);
                let q = byte >> sh;
                assert(q & 1 == q % 2) by (bit_vector);
                assert((8 * j + i) / 8 == j && (8 * j + i) % 8 == i) by (nonlinear_arith)
                    requires
                        i < 8,
                ;
                assert(all[8 * j + i] == (bit == 1));
                lemma_pow2_unfold((len + 1) as nat);
                lemma2_to64();
            }
            code = code * 2 + bit;
            len = len + 1;
            all_ones = all_ones && bit == 1;
            match lookup_symbol(code, len) {
                Some(sym) => {
                    if sym == EOS_SYMBOL {
                        return Err(invalid());
                    }
                    proof {
                        lemma_find_symbol_sound(code as int, len as int, 0);
                    }
                    out.push(sym as u8);
                    code = 0;
                    len = 0;
                    all_ones = true;
                },
                None => {
                    if len >= 30 {
                        return Err(invalid());
                    }
                },
            }
            i = i + 1;
        }
        j = j + 1;
    }
    if len >= 8 || !all_ones {
        return Err(invalid());
    }
    Ok(out)
}

} // verus!
