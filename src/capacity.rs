use vstd::prelude::*;
use crate::cell::{black, Cell, Color};
use crate::config::ECLevel;

verus! {

/// Error-correction codewords of one version, by level: L, M, Q, H.
#[derive(Copy, Clone, Debug, PartialEq, Eq, Structural)]
pub struct ECCodeWordCount(pub usize, pub usize, pub usize, pub usize);

/// Error-correction blocks of one version, by level: L, M, Q, H.
#[derive(Copy, Clone, Debug, PartialEq, Eq, Structural)]
pub struct CodeWordBlock(pub usize, pub usize, pub usize, pub usize);

/// The codeword budget of one version at one error-correction level.
#[derive(Copy, Clone, Debug, PartialEq, Eq, Structural)]
pub struct CodeWord {
    pub ecc_codeword_count: usize,
    pub block_count: usize,
    pub capacity: usize,
}

/// A group of error-correction blocks of equal length.
#[derive(Copy, Clone, Debug, PartialEq, Eq, Structural)]
pub struct BlockContent {
    pub blocks: usize,
    pub codewords_per_block: usize,
}

pub open spec fn valid_version(version: int) -> bool {
    1 <= version <= 40
}

/// Total codewords (data and error correction) of a version.
pub open spec fn total_codewords_spec(version: usize) -> int {
    match version {
        1 => 26,
        2 => 44,
        3 => 70,
        4 => 100,
        5 => 134,
        6 => 172,
        7 => 196,
        8 => 242,
        9 => 292,
        10 => 346,
        11 => 404,
        12 => 466,
        13 => 532,
        14 => 581,
        15 => 655,
        16 => 733,
        17 => 815,
        18 => 901,
        19 => 991,
        20 => 1085,
        21 => 1156,
        22 => 1258,
        23 => 1364,
        24 => 1474,
        25 => 1588,
        26 => 1706,
        27 => 1828,
        28 => 1921,
        29 => 2051,
        30 => 2185,
        31 => 2323,
        32 => 2465,
        33 => 2611,
        34 => 2761,
        35 => 2876,
        36 => 3034,
        37 => 3196,
        38 => 3362,
        39 => 3532,
        40 => 3706,
        _ => 0,
    }
}

pub open spec fn ecc_row_spec(version: usize) -> ECCodeWordCount {
    match version {
        1 => ECCodeWordCount(7, 10, 13, 17),
        2 => ECCodeWordCount(10, 16, 22, 28),
        3 => ECCodeWordCount(15, 26, 36, 44),
        4 => ECCodeWordCount(20, 36, 52, 64),
        5 => ECCodeWordCount(26, 48, 72, 88),
        6 => ECCodeWordCount(36, 64, 96, 112),
        7 => ECCodeWordCount(40, 72, 108, 130),
        8 => ECCodeWordCount(48, 88, 132, 156),
        9 => ECCodeWordCount(60, 110, 160, 192),
        10 => ECCodeWordCount(72, 130, 192, 224),
        11 => ECCodeWordCount(80, 150, 224, 264),
        12 => ECCodeWordCount(96, 176, 260, 308),
        13 => ECCodeWordCount(104, 198, 288, 352),
        14 => ECCodeWordCount(120, 216, 320, 384),
        15 => ECCodeWordCount(132, 240, 360, 432),
        16 => ECCodeWordCount(144, 280, 408, 480),
        17 => ECCodeWordCount(168, 308, 448, 532),
        18 => ECCodeWordCount(180, 338, 504, 588),
        19 => ECCodeWordCount(196, 364, 546, 650),
        20 => ECCodeWordCount(224, 416, 600, 700),
        21 => ECCodeWordCount(224, 442, 644, 750),
        22 => ECCodeWordCount(252, 476, 690, 816),
        23 => ECCodeWordCount(270, 504, 750, 900),
        24 => ECCodeWordCount(300, 560, 810, 960),
        25 => ECCodeWordCount(312, 588, 870, 1050),
        26 => ECCodeWordCount(336, 644, 952, 1110),
        27 => ECCodeWordCount(360, 700, 1020, 1200),
        28 => ECCodeWordCount(390, 728, 1050, 1260),
        29 => ECCodeWordCount(420, 784, 1140, 1350),
        30 => ECCodeWordCount(450, 812, 1200, 1440),
        31 => ECCodeWordCount(480, 868, 1290, 1530),
        32 => ECCodeWordCount(510, 924, 1350, 1620),
        33 => ECCodeWordCount(540, 980, 1440, 1710),
        34 => ECCodeWordCount(570, 1036, 1530, 1800),
        35 => ECCodeWordCount(570, 1064, 1590, 1890),
        36 => ECCodeWordCount(600, 1120, 1680, 1980),
        37 => ECCodeWordCount(630, 1204, 1770, 2100),
        38 => ECCodeWordCount(660, 1260, 1860, 2220),
        39 => ECCodeWordCount(720, 1316, 1950, 2310),
        40 => ECCodeWordCount(750, 1372, 2040, 2430),
        _ => ECCodeWordCount(0, 0, 0, 0),
    }
}

pub open spec fn block_row_spec(version: usize) -> CodeWordBlock {
    match version {
        1 => CodeWordBlock(1, 1, 1, 1),
        2 => CodeWordBlock(1, 1, 1, 1),
        3 => CodeWordBlock(1, 1, 2, 2),
        4 => CodeWordBlock(1, 2, 2, 4),
        5 => CodeWordBlock(1, 2, 4, 4),
        6 => CodeWordBlock(2, 4, 4, 4),
        7 => CodeWordBlock(2, 4, 6, 5),
        8 => CodeWordBlock(2, 4, 6, 6),
        9 => CodeWordBlock(2, 5, 8, 8),
        10 => CodeWordBlock(4, 5, 8, 8),
        11 => CodeWordBlock(4, 5, 8, 11),
        12 => CodeWordBlock(4, 8, 10, 11),
        13 => CodeWordBlock(4, 9, 12, 16),
        14 => CodeWordBlock(4, 9, 16, 16),
        15 => CodeWordBlock(6, 10, 12, 18),
        16 => CodeWordBlock(6, 10, 17, 16),
        17 => CodeWordBlock(6, 11, 16, 19),
        18 => CodeWordBlock(6, 13, 18, 21),
        19 => CodeWordBlock(7, 14, 21, 25),
        20 => CodeWordBlock(8, 16, 20, 25),
        21 => CodeWordBlock(8, 17, 23, 25),
        22 => CodeWordBlock(9, 17, 23, 34),
        23 => CodeWordBlock(9, 18, 25, 30),
        24 => CodeWordBlock(10, 20, 27, 32),
        25 => CodeWordBlock(12, 21, 29, 35),
        26 => CodeWordBlock(12, 23, 34, 37),
        27 => CodeWordBlock(12, 25, 34, 40),
        28 => CodeWordBlock(13, 26, 35, 42),
        29 => CodeWordBlock(14, 28, 38, 45),
        30 => CodeWordBlock(15, 29, 40, 48),
        31 => CodeWordBlock(16, 31, 43, 51),
        32 => CodeWordBlock(17, 33, 45, 54),
        33 => CodeWordBlock(18, 35, 48, 57),
        34 => CodeWordBlock(19, 37, 51, 60),
        35 => CodeWordBlock(19, 38, 53, 63),
        36 => CodeWordBlock(20, 40, 56, 66),
        37 => CodeWordBlock(21, 43, 59, 70),
        38 => CodeWordBlock(22, 45, 62, 74),
        39 => CodeWordBlock(24, 47, 65, 77),
        40 => CodeWordBlock(25, 49, 68, 81),
        _ => CodeWordBlock(0, 0, 0, 0),
    }
}

pub open spec fn pick_level(level: ECLevel, l: usize, m: usize, q: usize, h: usize) -> usize {
    match level {
        ECLevel::Low => l,
        ECLevel::Medium => m,
        ECLevel::Q => q,
        ECLevel::High => h,
    }
}

pub open spec fn codeword_info_spec(version: usize, level: ECLevel) -> CodeWord {
    let e = ecc_row_spec(version);
    let b = block_row_spec(version);
    CodeWord {
        ecc_codeword_count: pick_level(level, e.0, e.1, e.2, e.3),
        block_count: pick_level(level, b.0, b.1, b.2, b.3),
        capacity: total_codewords_spec(version) as usize,
    }
}

fn total_codewords(version: usize) -> (r: usize)
    ensures
        r == total_codewords_spec(version),
{
    match version {
        1 => 26,
        2 => 44,
        3 => 70,
        4 => 100,
        5 => 134,
        6 => 172,
        7 => 196,
        8 => 242,
        9 => 292,
        10 => 346,
        11 => 404,
        12 => 466,
        13 => 532,
        14 => 581,
        15 => 655,
        16 => 733,
        17 => 815,
        18 => 901,
        19 => 991,
        20 => 1085,
        21 => 1156,
        22 => 1258,
        23 => 1364,
        24 => 1474,
        25 => 1588,
        26 => 1706,
        27 => 1828,
        28 => 1921,
        29 => 2051,
        30 => 2185,
        31 => 2323,
        32 => 2465,
        33 => 2611,
        34 => 2761,
        35 => 2876,
        36 => 3034,
        37 => 3196,
        38 => 3362,
        39 => 3532,
        40 => 3706,
        _ => 0,
    }
}

fn ecc_row(version: usize) -> (r: ECCodeWordCount)
    ensures
        r == ecc_row_spec(version),
{
    match version {
        1 => ECCodeWordCount(7, 10, 13, 17),
        2 => ECCodeWordCount(10, 16, 22, 28),
        3 => ECCodeWordCount(15, 26, 36, 44),
        4 => ECCodeWordCount(20, 36, 52, 64),
        5 => ECCodeWordCount(26, 48, 72, 88),
        6 => ECCodeWordCount(36, 64, 96, 112),
        7 => ECCodeWordCount(40, 72, 108, 130),
        8 => ECCodeWordCount(48, 88, 132, 156),
        9 => ECCodeWordCount(60, 110, 160, 192),
        10 => ECCodeWordCount(72, 130, 192, 224),
        11 => ECCodeWordCount(80, 150, 224, 264),
        12 => ECCodeWordCount(96, 176, 260, 308),
        13 => ECCodeWordCount(104, 198, 288, 352),
        14 => ECCodeWordCount(120, 216, 320, 384),
        15 => ECCodeWordCount(132, 240, 360, 432),
        16 => ECCodeWordCount(144, 280, 408, 480),
        17 => ECCodeWordCount(168, 308, 448, 532),
        18 => ECCodeWordCount(180, 338, 504, 588),
        19 => ECCodeWordCount(196, 364, 546, 650),
        20 => ECCodeWordCount(224, 416, 600, 700),
        21 => ECCodeWordCount(224, 442, 644, 750),
        22 => ECCodeWordCount(252, 476, 690, 816),
        23 => ECCodeWordCount(270, 504, 750, 900),
        24 => ECCodeWordCount(300, 560, 810, 960),
        25 => ECCodeWordCount(312, 588, 870, 1050),
        26 => ECCodeWordCount(336, 644, 952, 1110),
        27 => ECCodeWordCount(360, 700, 1020, 1200),
        28 => ECCodeWordCount(390, 728, 1050, 1260),
        29 => ECCodeWordCount(420, 784, 1140, 1350),
        30 => ECCodeWordCount(450, 812, 1200, 1440),
        31 => ECCodeWordCount(480, 868, 1290, 1530),
        32 => ECCodeWordCount(510, 924, 1350, 1620),
        33 => ECCodeWordCount(540, 980, 1440, 1710),
        34 => ECCodeWordCount(570, 1036, 1530, 1800),
        35 => ECCodeWordCount(570, 1064, 1590, 1890),
        36 => ECCodeWordCount(600, 1120, 1680, 1980),
        37 => ECCodeWordCount(630, 1204, 1770, 2100),
        38 => ECCodeWordCount(660, 1260, 1860, 2220),
        39 => ECCodeWordCount(720, 1316, 1950, 2310),
        40 => ECCodeWordCount(750, 1372, 2040, 2430),
        _ => ECCodeWordCount(0, 0, 0, 0),
    }
}

fn block_row(version: usize) -> (r: CodeWordBlock)
    ensures
        r == block_row_spec(version),
{
    match version {
        1 => CodeWordBlock(1, 1, 1, 1),
        2 => CodeWordBlock(1, 1, 1, 1),
        3 => CodeWordBlock(1, 1, 2, 2),
        4 => CodeWordBlock(1, 2, 2, 4),
        5 => CodeWordBlock(1, 2, 4, 4),
        6 => CodeWordBlock(2, 4, 4, 4),
        7 => CodeWordBlock(2, 4, 6, 5),
        8 => CodeWordBlock(2, 4, 6, 6),
        9 => CodeWordBlock(2, 5, 8, 8),
        10 => CodeWordBlock(4, 5, 8, 8),
        11 => CodeWordBlock(4, 5, 8, 11),
        12 => CodeWordBlock(4, 8, 10, 11),
        13 => CodeWordBlock(4, 9, 12, 16),
        14 => CodeWordBlock(4, 9, 16, 16),
        15 => CodeWordBlock(6, 10, 12, 18),
        16 => CodeWordBlock(6, 10, 17, 16),
        17 => CodeWordBlock(6, 11, 16, 19),
        18 => CodeWordBlock(6, 13, 18, 21),
        19 => CodeWordBlock(7, 14, 21, 25),
        20 => CodeWordBlock(8, 16, 20, 25),
        21 => CodeWordBlock(8, 17, 23, 25),
        22 => CodeWordBlock(9, 17, 23, 34),
        23 => CodeWordBlock(9, 18, 25, 30),
        24 => CodeWordBlock(10, 20, 27, 32),
        25 => CodeWordBlock(12, 21, 29, 35),
        26 => CodeWordBlock(12, 23, 34, 37),
        27 => CodeWordBlock(12, 25, 34, 40),
        28 => CodeWordBlock(13, 26, 35, 42),
        29 => CodeWordBlock(14, 28, 38, 45),
        30 => CodeWordBlock(15, 29, 40, 48),
        31 => CodeWordBlock(16, 31, 43, 51),
        32 => CodeWordBlock(17, 33, 45, 54),
        33 => CodeWordBlock(18, 35, 48, 57),
        34 => CodeWordBlock(19, 37, 51, 60),
        35 => CodeWordBlock(19, 38, 53, 63),
        36 => CodeWordBlock(20, 40, 56, 66),
        37 => CodeWordBlock(21, 43, 59, 70),
        38 => CodeWordBlock(22, 45, 62, 74),
        39 => CodeWordBlock(24, 47, 65, 77),
        40 => CodeWordBlock(25, 49, 68, 81),
        _ => CodeWordBlock(0, 0, 0, 0),
    }
}

/// The facts about the capacity tables that the encoder relies on.
pub proof fn lemma_codeword_table(version: usize, level: ECLevel)
    requires
        valid_version(version as int),
    ensures
        codeword_info_spec(version, level).wf(),
        codeword_info_spec(version, level).capacity <= 3706,
        version <= 9 ==> codeword_info_spec(version, level).data_len() < 256,
{
    if version <= 5 {
        lemma_table_rows_1_5(version, level);
    } else if version <= 10 {
        lemma_table_rows_6_10(version, level);
    } else if version <= 15 {
        lemma_table_rows_11_15(version, level);
    } else if version <= 20 {
        lemma_table_rows_16_20(version, level);
    } else if version <= 25 {
        lemma_table_rows_21_25(version, level);
    } else if version <= 30 {
        lemma_table_rows_26_30(version, level);
    } else if version <= 35 {
        lemma_table_rows_31_35(version, level);
    } else {
        lemma_table_rows_36_40(version, level);
    }
}

#[verifier::spinoff_prover]
proof fn lemma_table_rows_1_5(version: usize, level: ECLevel)
    requires
        1 <= version <= 5,
    ensures
        codeword_info_spec(version, level).wf(),
        codeword_info_spec(version, level).capacity <= 3706,
        version <= 9 ==> codeword_info_spec(version, level).data_len() < 256,
{
    if version == 1 {
        assert(codeword_info_spec(1, ECLevel::Low) == CodeWord { ecc_codeword_count: 7, block_count: 1, capacity: 26 });
        assert((CodeWord { ecc_codeword_count: 7, block_count: 1, capacity: 26 }).wf()) by (nonlinear_arith);
        assert(codeword_info_spec(1, ECLevel::Medium) == CodeWord { ecc_codeword_count: 10, block_count: 1, capacity: 26 });
        assert((CodeWord { ecc_codeword_count: 10, block_count: 1, capacity: 26 }).wf()) by (nonlinear_arith);
        assert(codeword_info_spec(1, ECLevel::Q) == CodeWord { ecc_codeword_count: 13, block_count: 1, capacity: 26 });
        assert((CodeWord { ecc_codeword_count: 13, block_count: 1, capacity: 26 }).wf()) by (nonlinear_arith);
        assert(codeword_info_spec(1, ECLevel::High) == CodeWord { ecc_codeword_count: 17, block_count: 1, capacity: 26 });
        assert((CodeWord { ecc_codeword_count: 17, block_count: 1, capacity: 26 }).wf()) by (nonlinear_arith);
    } else if version == 2 {
        assert(codeword_info_spec(2, ECLevel::Low) == CodeWord { ecc_codeword_count: 10, block_count: 1, capacity: 44 });
        assert((CodeWord { ecc_codeword_count: 10, block_count: 1, capacity: 44 }).wf()) by (nonlinear_arith);
        assert(codeword_info_spec(2, ECLevel::Medium) == CodeWord { ecc_codeword_count: 16, block_count: 1, capacity: 44 });
        assert((CodeWord { ecc_codeword_count: 16, block_count: 1, capacity: 44 }).wf()) by (nonlinear_arith);
        assert(codeword_info_spec(2, ECLevel::Q) == CodeWord { ecc_codeword_count: 22, block_count: 1, capacity: 44 });
        assert((CodeWord { ecc_codeword_count: 22, block_count: 1, capacity: 44 }).wf()) by (nonlinear_arith);
        assert(codeword_info_spec(2, ECLevel::High) == CodeWord { ecc_codeword_count: 28, block_count: 1, capacity: 44 });
        assert((CodeWord { ecc_codeword_count: 28, block_count: 1, capacity: 44 }).wf()) by (nonlinear_arith);
    } else if version == 3 {
        assert(codeword_info_spec(3, ECLevel::Low) == CodeWord { ecc_codeword_count: 15, block_count: 1, capacity: 70 });
        assert((CodeWord { ecc_codeword_count: 15, block_count: 1, capacity: 70 }).wf()) by (nonlinear_arith);
        assert(codeword_info_spec(3, ECLevel::Medium) == CodeWord { ecc_codeword_count: 26, block_count: 1, capacity: 70 });
        assert((CodeWord { ecc_codeword_count: 26, block_count: 1, capacity: 70 }).wf()) by (nonlinear_arith);
        assert(codeword_info_spec(3, ECLevel::Q) == CodeWord { ecc_codeword_count: 36, block_count: 2, capacity: 70 });
        assert((CodeWord { ecc_codeword_count: 36, block_count: 2, capacity: 70 }).wf()) by (nonlinear_arith);
        assert(codeword_info_spec(3, ECLevel::High) == CodeWord { ecc_codeword_count: 44, block_count: 2, capacity: 70 });
        assert((CodeWord { ecc_codeword_count: 44, block_count: 2, capacity: 70 }).wf()) by (nonlinear_arith);
    } else if version == 4 {
        assert(codeword_info_spec(4, ECLevel::Low) == CodeWord { ecc_codeword_count: 20, block_count: 1, capacity: 100 });
        assert((CodeWord { ecc_codeword_count: 20, block_count: 1, capacity: 100 }).wf()) by (nonlinear_arith);
        assert(codeword_info_spec(4, ECLevel::Medium) == CodeWord { ecc_codeword_count: 36, block_count: 2, capacity: 100 });
        assert((CodeWord { ecc_codeword_count: 36, block_count: 2, capacity: 100 }).wf()) by (nonlinear_arith);
        assert(codeword_info_spec(4, ECLevel::Q) == CodeWord { ecc_codeword_count: 52, block_count: 2, capacity: 100 });
        assert((CodeWord { ecc_codeword_count: 52, block_count: 2, capacity: 100 }).wf()) by (nonlinear_arith);
        assert(codeword_info_spec(4, ECLevel::High) == CodeWord { ecc_codeword_count: 64, block_count: 4, capacity: 100 });
        assert((CodeWord { ecc_codeword_count: 64, block_count: 4, capacity: 100 }).wf()) by (nonlinear_arith);
    } else if version == 5 {
        assert(codeword_info_spec(5, ECLevel::Low) == CodeWord { ecc_codeword_count: 26, block_count: 1, capacity: 134 });
        assert((CodeWord { ecc_codeword_count: 26, block_count: 1, capacity: 134 }).wf()) by (nonlinear_arith);
        assert(codeword_info_spec(5, ECLevel::Medium) == CodeWord { ecc_codeword_count: 48, block_count: 2, capacity: 134 });
        assert((CodeWord { ecc_codeword_count: 48, block_count: 2, capacity: 134 }).wf()) by (nonlinear_arith);
        assert(codeword_info_spec(5, ECLevel::Q) == CodeWord { ecc_codeword_count: 72, block_count: 4, capacity: 134 });
        assert((CodeWord { ecc_codeword_count: 72, block_count: 4, capacity: 134 }).wf()) by (nonlinear_arith);
        assert(codeword_info_spec(5, ECLevel::High) == CodeWord { ecc_codeword_count: 88, block_count: 4, capacity: 134 });
        assert((CodeWord { ecc_codeword_count: 88, block_count: 4, capacity: 134 }).wf()) by (nonlinear_arith);
    }
}

#[verifier::spinoff_prover]
proof fn lemma_table_rows_6_10(version: usize, level: ECLevel)
    requires
        6 <= version <= 10,
    ensures
        codeword_info_spec(version, level).wf(),
        codeword_info_spec(version, level).capacity <= 3706,
        version <= 9 ==> codeword_info_spec(version, level).data_len() < 256,
{
    if version == 6 {
        assert(codeword_info_spec(6, ECLevel::Low) == CodeWord { ecc_codeword_count: 36, block_count: 2, capacity: 172 });
        assert((CodeWord { ecc_codeword_count: 36, block_count: 2, capacity: 172 }).wf()) by (nonlinear_arith);
        assert(codeword_info_spec(6, ECLevel::Medium) == CodeWord { ecc_codeword_count: 64, block_count: 4, capacity: 172 });
        assert((CodeWord { ecc_codeword_count: 64, block_count: 4, capacity: 172 }).wf()) by (nonlinear_arith);
        assert(codeword_info_spec(6, ECLevel::Q) == CodeWord { ecc_codeword_count: 96, block_count: 4, capacity: 172 });
        assert((CodeWord { ecc_codeword_count: 96, block_count: 4, capacity: 172 }).wf()) by (nonlinear_arith);
        assert(codeword_info_spec(6, ECLevel::High) == CodeWord { ecc_codeword_count: 112, block_count: 4, capacity: 172 });
        assert((CodeWord { ecc_codeword_count: 112, block_count: 4, capacity: 172 }).wf()) by (nonlinear_arith);
    } else if version == 7 {
        assert(codeword_info_spec(7, ECLevel::Low) == CodeWord { ecc_codeword_count: 40, block_count: 2, capacity: 196 });
        assert((CodeWord { ecc_codeword_count: 40, block_count: 2, capacity: 196 }).wf()) by (nonlinear_arith);
        assert(codeword_info_spec(7, ECLevel::Medium) == CodeWord { ecc_codeword_count: 72, block_count: 4, capacity: 196 });
        assert((CodeWord { ecc_codeword_count: 72, block_count: 4, capacity: 196 }).wf()) by (nonlinear_arith);
        assert(codeword_info_spec(7, ECLevel::Q) == CodeWord { ecc_codeword_count: 108, block_count: 6, capacity: 196 });
        assert((CodeWord { ecc_codeword_count: 108, block_count: 6, capacity: 196 }).wf()) by (nonlinear_arith);
        assert(codeword_info_spec(7, ECLevel::High) == CodeWord { ecc_codeword_count: 130, block_count: 5, capacity: 196 });
        assert((CodeWord { ecc_codeword_count: 130, block_count: 5, capacity: 196 }).wf()) by (nonlinear_arith);
    } else if version == 8 {
        assert(codeword_info_spec(8, ECLevel::Low) == CodeWord { ecc_codeword_count: 48, block_count: 2, capacity: 242 });
        assert((CodeWord { ecc_codeword_count: 48, block_count: 2, capacity: 242 }).wf()) by (nonlinear_arith);
        assert(codeword_info_spec(8, ECLevel::Medium) == CodeWord { ecc_codeword_count: 88, block_count: 4, capacity: 242 });
        assert((CodeWord { ecc_codeword_count: 88, block_count: 4, capacity: 242 }).wf()) by (nonlinear_arith);
        assert(codeword_info_spec(8, ECLevel::Q) == CodeWord { ecc_codeword_count: 132, block_count: 6, capacity: 242 });
        assert((CodeWord { ecc_codeword_count: 132, block_count: 6, capacity: 242 }).wf()) by (nonlinear_arith);
        assert(codeword_info_spec(8, ECLevel::High) == CodeWord { ecc_codeword_count: 156, block_count: 6, capacity: 242 });
        assert((CodeWord { ecc_codeword_count: 156, block_count: 6, capacity: 242 }).wf()) by (nonlinear_arith);
    } else if version == 9 {
        assert(codeword_info_spec(9, ECLevel::Low) == CodeWord { ecc_codeword_count: 60, block_count: 2, capacity: 292 });
        assert((CodeWord { ecc_codeword_count: 60, block_count: 2, capacity: 292 }).wf()) by (nonlinear_arith);
        assert(codeword_info_spec(9, ECLevel::Medium) == CodeWord { ecc_codeword_count: 110, block_count: 5, capacity: 292 });
        assert((CodeWord { ecc_codeword_count: 110, block_count: 5, capacity: 292 }).wf()) by (nonlinear_arith);
        assert(codeword_info_spec(9, ECLevel::Q) == CodeWord { ecc_codeword_count: 160, block_count: 8, capacity: 292 });
        assert((CodeWord { ecc_codeword_count: 160, block_count: 8, capacity: 292 }).wf()) by (nonlinear_arith);
        assert(codeword_info_spec(9, ECLevel::High) == CodeWord { ecc_codeword_count: 192, block_count: 8, capacity: 292 });
        assert((CodeWord { ecc_codeword_count: 192, block_count: 8, capacity: 292 }).wf()) by (nonlinear_arith);
    } else if version == 10 {
        assert(codeword_info_spec(10, ECLevel::Low) == CodeWord { ecc_codeword_count: 72, block_count: 4, capacity: 346 });
        assert((CodeWord { ecc_codeword_count: 72, block_count: 4, capacity: 346 }).wf()) by (nonlinear_arith);
        assert(codeword_info_spec(10, ECLevel::Medium) == CodeWord { ecc_codeword_count: 130, block_count: 5, capacity: 346 });
        assert((CodeWord { ecc_codeword_count: 130, block_count: 5, capacity: 346 }).wf()) by (nonlinear_arith);
        assert(codeword_info_spec(10, ECLevel::Q) == CodeWord { ecc_codeword_count: 192, block_count: 8, capacity: 346 });
        assert((CodeWord { ecc_codeword_count: 192, block_count: 8, capacity: 346 }).wf()) by (nonlinear_arith);
        assert(codeword_info_spec(10, ECLevel::High) == CodeWord { ecc_codeword_count: 224, block_count: 8, capacity: 346 });
        assert((CodeWord { ecc_codeword_count: 224, block_count: 8, capacity: 346 }).wf()) by (nonlinear_arith);
    }
}

#[verifier::spinoff_prover]
proof fn lemma_table_rows_11_15(version: usize, level: ECLevel)
    requires
        11 <= version <= 15,
    ensures
        codeword_info_spec(version, level).wf(),
        codeword_info_spec(version, level).capacity <= 3706,
        version <= 9 ==> codeword_info_spec(version, level).data_len() < 256,
{
    if version == 11 {
        assert(codeword_info_spec(11, ECLevel::Low) == CodeWord { ecc_codeword_count: 80, block_count: 4, capacity: 404 });
        assert((CodeWord { ecc_codeword_count: 80, block_count: 4, capacity: 404 }).wf()) by (nonlinear_arith);
        assert(codeword_info_spec(11, ECLevel::Medium) == CodeWord { ecc_codeword_count: 150, block_count: 5, capacity: 404 });
        assert((CodeWord { ecc_codeword_count: 150, block_count: 5, capacity: 404 }).wf()) by (nonlinear_arith);
        assert(codeword_info_spec(11, ECLevel::Q) == CodeWord { ecc_codeword_count: 224, block_count: 8, capacity: 404 });
        assert((CodeWord { ecc_codeword_count: 224, block_count: 8, capacity: 404 }).wf()) by (nonlinear_arith);
        assert(codeword_info_spec(11, ECLevel::High) == CodeWord { ecc_codeword_count: 264, block_count: 11, capacity: 404 });
        assert((CodeWord { ecc_codeword_count: 264, block_count: 11, capacity: 404 }).wf()) by (nonlinear_arith);
    } else if version == 12 {
        assert(codeword_info_spec(12, ECLevel::Low) == CodeWord { ecc_codeword_count: 96, block_count: 4, capacity: 466 });
        assert((CodeWord { ecc_codeword_count: 96, block_count: 4, capacity: 466 }).wf()) by (nonlinear_arith);
        assert(codeword_info_spec(12, ECLevel::Medium) == CodeWord { ecc_codeword_count: 176, block_count: 8, capacity: 466 });
        assert((CodeWord { ecc_codeword_count: 176, block_count: 8, capacity: 466 }).wf()) by (nonlinear_arith);
        assert(codeword_info_spec(12, ECLevel::Q) == CodeWord { ecc_codeword_count: 260, block_count: 10, capacity: 466 });
        assert((CodeWord { ecc_codeword_count: 260, block_count: 10, capacity: 466 }).wf()) by (nonlinear_arith);
        assert(codeword_info_spec(12, ECLevel::High) == CodeWord { ecc_codeword_count: 308, block_count: 11, capacity: 466 });
        assert((CodeWord { ecc_codeword_count: 308, block_count: 11, capacity: 466 }).wf()) by (nonlinear_arith);
    } else if version == 13 {
        assert(codeword_info_spec(13, ECLevel::Low) == CodeWord { ecc_codeword_count: 104, block_count: 4, capacity: 532 });
        assert((CodeWord { ecc_codeword_count: 104, block_count: 4, capacity: 532 }).wf()) by (nonlinear_arith);
        assert(codeword_info_spec(13, ECLevel::Medium) == CodeWord { ecc_codeword_count: 198, block_count: 9, capacity: 532 });
        assert((CodeWord { ecc_codeword_count: 198, block_count: 9, capacity: 532 }).wf()) by (nonlinear_arith);
        assert(codeword_info_spec(13, ECLevel::Q) == CodeWord { ecc_codeword_count: 288, block_count: 12, capacity: 532 });
        assert((CodeWord { ecc_codeword_count: 288, block_count: 12, capacity: 532 }).wf()) by (nonlinear_arith);
        assert(codeword_info_spec(13, ECLevel::High) == CodeWord { ecc_codeword_count: 352, block_count: 16, capacity: 532 });
        assert((CodeWord { ecc_codeword_count: 352, block_count: 16, capacity: 532 }).wf()) by (nonlinear_arith);
    } else if version == 14 {
        assert(codeword_info_spec(14, ECLevel::Low) == CodeWord { ecc_codeword_count: 120, block_count: 4, capacity: 581 });
        assert((CodeWord { ecc_codeword_count: 120, block_count: 4, capacity: 581 }).wf()) by (nonlinear_arith);
        assert(codeword_info_spec(14, ECLevel::Medium) == CodeWord { ecc_codeword_count: 216, block_count: 9, capacity: 581 });
        assert((CodeWord { ecc_codeword_count: 216, block_count: 9, capacity: 581 }).wf()) by (nonlinear_arith);
        assert(codeword_info_spec(14, ECLevel::Q) == CodeWord { ecc_codeword_count: 320, block_count: 16, capacity: 581 });
        assert((CodeWord { ecc_codeword_count: 320, block_count: 16, capacity: 581 }).wf()) by (nonlinear_arith);
        assert(codeword_info_spec(14, ECLevel::High) == CodeWord { ecc_codeword_count: 384, block_count: 16, capacity: 581 });
        assert((CodeWord { ecc_codeword_count: 384, block_count: 16, capacity: 581 }).wf()) by (nonlinear_arith);
    } else if version == 15 {
        assert(codeword_info_spec(15, ECLevel::Low) == CodeWord { ecc_codeword_count: 132, block_count: 6, capacity: 655 });
        assert((CodeWord { ecc_codeword_count: 132, block_count: 6, capacity: 655 }).wf()) by (nonlinear_arith);
        assert(codeword_info_spec(15, ECLevel::Medium) == CodeWord { ecc_codeword_count: 240, block_count: 10, capacity: 655 });
        assert((CodeWord { ecc_codeword_count: 240, block_count: 10, capacity: 655 }).wf()) by (nonlinear_arith);
        assert(codeword_info_spec(15, ECLevel::Q) == CodeWord { ecc_codeword_count: 360, block_count: 12, capacity: 655 });
        assert((CodeWord { ecc_codeword_count: 360, block_count: 12, capacity: 655 }).wf()) by (nonlinear_arith);
        assert(codeword_info_spec(15, ECLevel::High) == CodeWord { ecc_codeword_count: 432, block_count: 18, capacity: 655 });
        assert((CodeWord { ecc_codeword_count: 432, block_count: 18, capacity: 655 }).wf()) by (nonlinear_arith);
    }
}

#[verifier::spinoff_prover]
proof fn lemma_table_rows_16_20(version: usize, level: ECLevel)
    requires
        16 <= version <= 20,
    ensures
        codeword_info_spec(version, level).wf(),
        codeword_info_spec(version, level).capacity <= 3706,
        version <= 9 ==> codeword_info_spec(version, level).data_len() < 256,
{
    if version == 16 {
        assert(codeword_info_spec(16, ECLevel::Low) == CodeWord { ecc_codeword_count: 144, block_count: 6, capacity: 733 });
        assert((CodeWord { ecc_codeword_count: 144, block_count: 6, capacity: 733 }).wf()) by (nonlinear_arith);
        assert(codeword_info_spec(16, ECLevel::Medium) == CodeWord { ecc_codeword_count: 280, block_count: 10, capacity: 733 });
        assert((CodeWord { ecc_codeword_count: 280, block_count: 10, capacity: 733 }).wf()) by (nonlinear_arith);
        assert(codeword_info_spec(16, ECLevel::Q) == CodeWord { ecc_codeword_count: 408, block_count: 17, capacity: 733 });
        assert((CodeWord { ecc_codeword_count: 408, block_count: 17, capacity: 733 }).wf()) by (nonlinear_arith);
        assert(codeword_info_spec(16, ECLevel::High) == CodeWord { ecc_codeword_count: 480, block_count: 16, capacity: 733 });
        assert((CodeWord { ecc_codeword_count: 480, block_count: 16, capacity: 733 }).wf()) by (nonlinear_arith);
    } else if version == 17 {
        assert(codeword_info_spec(17, ECLevel::Low) == CodeWord { ecc_codeword_count: 168, block_count: 6, capacity: 815 });
        assert((CodeWord { ecc_codeword_count: 168, block_count: 6, capacity: 815 }).wf()) by (nonlinear_arith);
        assert(codeword_info_spec(17, ECLevel::Medium) == CodeWord { ecc_codeword_count: 308, block_count: 11, capacity: 815 });
        assert((CodeWord { ecc_codeword_count: 308, block_count: 11, capacity: 815 }).wf()) by (nonlinear_arith);
        assert(codeword_info_spec(17, ECLevel::Q) == CodeWord { ecc_codeword_count: 448, block_count: 16, capacity: 815 });
        assert((CodeWord { ecc_codeword_count: 448, block_count: 16, capacity: 815 }).wf()) by (nonlinear_arith);
        assert(codeword_info_spec(17, ECLevel::High) == CodeWord { ecc_codeword_count: 532, block_count: 19, capacity: 815 });
        assert((CodeWord { ecc_codeword_count: 532, block_count: 19, capacity: 815 }).wf()) by (nonlinear_arith);
    } else if version == 18 {
        assert(codeword_info_spec(18, ECLevel::Low) == CodeWord { ecc_codeword_count: 180, block_count: 6, capacity: 901 });
        assert((CodeWord { ecc_codeword_count: 180, block_count: 6, capacity: 901 }).wf()) by (nonlinear_arith);
        assert(codeword_info_spec(18, ECLevel::Medium) == CodeWord { ecc_codeword_count: 338, block_count: 13, capacity: 901 });
        assert((CodeWord { ecc_codeword_count: 338, block_count: 13, capacity: 901 }).wf()) by (nonlinear_arith);
        assert(codeword_info_spec(18, ECLevel::Q) == CodeWord { ecc_codeword_count: 504, block_count: 18, capacity: 901 });
        assert((CodeWord { ecc_codeword_count: 504, block_count: 18, capacity: 901 }).wf()) by (nonlinear_arith);
        assert(codeword_info_spec(18, ECLevel::High) == CodeWord { ecc_codeword_count: 588, block_count: 21, capacity: 901 });
        assert((CodeWord { ecc_codeword_count: 588, block_count: 21, capacity: 901 }).wf()) by (nonlinear_arith);
    } else if version == 19 {
        assert(codeword_info_spec(19, ECLevel::Low) == CodeWord { ecc_codeword_count: 196, block_count: 7, capacity: 991 });
        assert((CodeWord { ecc_codeword_count: 196, block_count: 7, capacity: 991 }).wf()) by (nonlinear_arith);
        assert(codeword_info_spec(19, ECLevel::Medium) == CodeWord { ecc_codeword_count: 364, block_count: 14, capacity: 991 });
        assert((CodeWord { ecc_codeword_count: 364, block_count: 14, capacity: 991 }).wf()) by (nonlinear_arith);
        assert(codeword_info_spec(19, ECLevel::Q) == CodeWord { ecc_codeword_count: 546, block_count: 21, capacity: 991 });
        assert((CodeWord { ecc_codeword_count: 546, block_count: 21, capacity: 991 }).wf()) by (nonlinear_arith);
        assert(codeword_info_spec(19, ECLevel::High) == CodeWord { ecc_codeword_count: 650, block_count: 25, capacity: 991 });
        assert((CodeWord { ecc_codeword_count: 650, block_count: 25, capacity: 991 }).wf()) by (nonlinear_arith);
    } else if version == 20 {
        assert(codeword_info_spec(20, ECLevel::Low) == CodeWord { ecc_codeword_count: 224, block_count: 8, capacity: 1085 });
        assert((CodeWord { ecc_codeword_count: 224, block_count: 8, capacity: 1085 }).wf()) by (nonlinear_arith);
        assert(codeword_info_spec(20, ECLevel::Medium) == CodeWord { ecc_codeword_count: 416, block_count: 16, capacity: 1085 });
        assert((CodeWord { ecc_codeword_count: 416, block_count: 16, capacity: 1085 }).wf()) by (nonlinear_arith);
        assert(codeword_info_spec(20, ECLevel::Q) == CodeWord { ecc_codeword_count: 600, block_count: 20, capacity: 1085 });
        assert((CodeWord { ecc_codeword_count: 600, block_count: 20, capacity: 1085 }).wf()) by (nonlinear_arith);
        assert(codeword_info_spec(20, ECLevel::High) == CodeWord { ecc_codeword_count: 700, block_count: 25, capacity: 1085 });
        assert((CodeWord { ecc_codeword_count: 700, block_count: 25, capacity: 1085 }).wf()) by (nonlinear_arith);
    }
}

#[verifier::spinoff_prover]
proof fn lemma_table_rows_21_25(version: usize, level: ECLevel)
    requires
        21 <= version <= 25,
    ensures
        codeword_info_spec(version, level).wf(),
        codeword_info_spec(version, level).capacity <= 3706,
        version <= 9 ==> codeword_info_spec(version, level).data_len() < 256,
{
    if version == 21 {
        assert(codeword_info_spec(21, ECLevel::Low) == CodeWord { ecc_codeword_count: 224, block_count: 8, capacity: 1156 });
        assert((CodeWord { ecc_codeword_count: 224, block_count: 8, capacity: 1156 }).wf()) by (nonlinear_arith);
        assert(codeword_info_spec(21, ECLevel::Medium) == CodeWord { ecc_codeword_count: 442, block_count: 17, capacity: 1156 });
        assert((CodeWord { ecc_codeword_count: 442, block_count: 17, capacity: 1156 }).wf()) by (nonlinear_arith);
        assert(codeword_info_spec(21, ECLevel::Q) == CodeWord { ecc_codeword_count: 644, block_count: 23, capacity: 1156 });
        assert((CodeWord { ecc_codeword_count: 644, block_count: 23, capacity: 1156 }).wf()) by (nonlinear_arith);
        assert(codeword_info_spec(21, ECLevel::High) == CodeWord { ecc_codeword_count: 750, block_count: 25, capacity: 1156 });
        assert((CodeWord { ecc_codeword_count: 750, block_count: 25, capacity: 1156 }).wf()) by (nonlinear_arith);
    } else if version == 22 {
        assert(codeword_info_spec(22, ECLevel::Low) == CodeWord { ecc_codeword_count: 252, block_count: 9, capacity: 1258 });
        assert((CodeWord { ecc_codeword_count: 252, block_count: 9, capacity: 1258 }).wf()) by (nonlinear_arith);
        assert(codeword_info_spec(22, ECLevel::Medium) == CodeWord { ecc_codeword_count: 476, block_count: 17, capacity: 1258 });
        assert((CodeWord { ecc_codeword_count: 476, block_count: 17, capacity: 1258 }).wf()) by (nonlinear_arith);
        assert(codeword_info_spec(22, ECLevel::Q) == CodeWord { ecc_codeword_count: 690, block_count: 23, capacity: 1258 });
        assert((CodeWord { ecc_codeword_count: 690, block_count: 23, capacity: 1258 }).wf()) by (nonlinear_arith);
        assert(codeword_info_spec(22, ECLevel::High) == CodeWord { ecc_codeword_count: 816, block_count: 34, capacity: 1258 });
        assert((CodeWord { ecc_codeword_count: 816, block_count: 34, capacity: 1258 }).wf()) by (nonlinear_arith);
    } else if version == 23 {
        assert(codeword_info_spec(23, ECLevel::Low) == CodeWord { ecc_codeword_count: 270, block_count: 9, capacity: 1364 });
        assert((CodeWord { ecc_codeword_count: 270, block_count: 9, capacity: 1364 }).wf()) by (nonlinear_arith);
        assert(codeword_info_spec(23, ECLevel::Medium) == CodeWord { ecc_codeword_count: 504, block_count: 18, capacity: 1364 });
        assert((CodeWord { ecc_codeword_count: 504, block_count: 18, capacity: 1364 }).wf()) by (nonlinear_arith);
        assert(codeword_info_spec(23, ECLevel::Q) == CodeWord { ecc_codeword_count: 750, block_count: 25, capacity: 1364 });
        assert((CodeWord { ecc_codeword_count: 750, block_count: 25, capacity: 1364 }).wf()) by (nonlinear_arith);
        assert(codeword_info_spec(23, ECLevel::High) == CodeWord { ecc_codeword_count: 900, block_count: 30, capacity: 1364 });
        assert((CodeWord { ecc_codeword_count: 900, block_count: 30, capacity: 1364 }).wf()) by (nonlinear_arith);
    } else if version == 24 {
        assert(codeword_info_spec(24, ECLevel::Low) == CodeWord { ecc_codeword_count: 300, block_count: 10, capacity: 1474 });
        assert((CodeWord { ecc_codeword_count: 300, block_count: 10, capacity: 1474 }).wf()) by (nonlinear_arith);
        assert(codeword_info_spec(24, ECLevel::Medium) == CodeWord { ecc_codeword_count: 560, block_count: 20, capacity: 1474 });
        assert((CodeWord { ecc_codeword_count: 560, block_count: 20, capacity: 1474 }).wf()) by (nonlinear_arith);
        assert(codeword_info_spec(24, ECLevel::Q) == CodeWord { ecc_codeword_count: 810, block_count: 27, capacity: 1474 });
        assert((CodeWord { ecc_codeword_count: 810, block_count: 27, capacity: 1474 }).wf()) by (nonlinear_arith);
        assert(codeword_info_spec(24, ECLevel::High) == CodeWord { ecc_codeword_count: 960, block_count: 32, capacity: 1474 });
        assert((CodeWord { ecc_codeword_count: 960, block_count: 32, capacity: 1474 }).wf()) by (nonlinear_arith);
    } else if version == 25 {
        assert(codeword_info_spec(25, ECLevel::Low) == CodeWord { ecc_codeword_count: 312, block_count: 12, capacity: 1588 });
        assert((CodeWord { ecc_codeword_count: 312, block_count: 12, capacity: 1588 }).wf()) by (nonlinear_arith);
        assert(codeword_info_spec(25, ECLevel::Medium) == CodeWord { ecc_codeword_count: 588, block_count: 21, capacity: 1588 });
        assert((CodeWord { ecc_codeword_count: 588, block_count: 21, capacity: 1588 }).wf()) by (nonlinear_arith);
        assert(codeword_info_spec(25, ECLevel::Q) == CodeWord { ecc_codeword_count: 870, block_count: 29, capacity: 1588 });
        assert((CodeWord { ecc_codeword_count: 870, block_count: 29, capacity: 1588 }).wf()) by (nonlinear_arith);
        assert(codeword_info_spec(25, ECLevel::High) == CodeWord { ecc_codeword_count: 1050, block_count: 35, capacity: 1588 });
        assert((CodeWord { ecc_codeword_count: 1050, block_count: 35, capacity: 1588 }).wf()) by (nonlinear_arith);
    }
}

#[verifier::spinoff_prover]
proof fn lemma_table_rows_26_30(version: usize, level: ECLevel)
    requires
        26 <= version <= 30,
    ensures
        codeword_info_spec(version, level).wf(),
        codeword_info_spec(version, level).capacity <= 3706,
        version <= 9 ==> codeword_info_spec(version, level).data_len() < 256,
{
    if version == 26 {
        assert(codeword_info_spec(26, ECLevel::Low) == CodeWord { ecc_codeword_count: 336, block_count: 12, capacity: 1706 });
        assert((CodeWord { ecc_codeword_count: 336, block_count: 12, capacity: 1706 }).wf()) by (nonlinear_arith);
        assert(codeword_info_spec(26, ECLevel::Medium) == CodeWord { ecc_codeword_count: 644, block_count: 23, capacity: 1706 });
        assert((CodeWord { ecc_codeword_count: 644, block_count: 23, capacity: 1706 }).wf()) by (nonlinear_arith);
        assert(codeword_info_spec(26, ECLevel::Q) == CodeWord { ecc_codeword_count: 952, block_count: 34, capacity: 1706 });
        assert((CodeWord { ecc_codeword_count: 952, block_count: 34, capacity: 1706 }).wf()) by (nonlinear_arith);
        assert(codeword_info_spec(26, ECLevel::High) == CodeWord { ecc_codeword_count: 1110, block_count: 37, capacity: 1706 });
        assert((CodeWord { ecc_codeword_count: 1110, block_count: 37, capacity: 1706 }).wf()) by (nonlinear_arith);
    } else if version == 27 {
        assert(codeword_info_spec(27, ECLevel::Low) == CodeWord { ecc_codeword_count: 360, block_count: 12, capacity: 1828 });
        assert((CodeWord { ecc_codeword_count: 360, block_count: 12, capacity: 1828 }).wf()) by (nonlinear_arith);
        assert(codeword_info_spec(27, ECLevel::Medium) == CodeWord { ecc_codeword_count: 700, block_count: 25, capacity: 1828 });
        assert((CodeWord { ecc_codeword_count: 700, block_count: 25, capacity: 1828 }).wf()) by (nonlinear_arith);
        assert(codeword_info_spec(27, ECLevel::Q) == CodeWord { ecc_codeword_count: 1020, block_count: 34, capacity: 1828 });
        assert((CodeWord { ecc_codeword_count: 1020, block_count: 34, capacity: 1828 }).wf()) by (nonlinear_arith);
        assert(codeword_info_spec(27, ECLevel::High) == CodeWord { ecc_codeword_count: 1200, block_count: 40, capacity: 1828 });
        assert((CodeWord { ecc_codeword_count: 1200, block_count: 40, capacity: 1828 }).wf()) by (nonlinear_arith);
    } else if version == 28 {
        assert(codeword_info_spec(28, ECLevel::Low) == CodeWord { ecc_codeword_count: 390, block_count: 13, capacity: 1921 });
        assert((CodeWord { ecc_codeword_count: 390, block_count: 13, capacity: 1921 }).wf()) by (nonlinear_arith);
        assert(codeword_info_spec(28, ECLevel::Medium) == CodeWord { ecc_codeword_count: 728, block_count: 26, capacity: 1921 });
        assert((CodeWord { ecc_codeword_count: 728, block_count: 26, capacity: 1921 }).wf()) by (nonlinear_arith);
        assert(codeword_info_spec(28, ECLevel::Q) == CodeWord { ecc_codeword_count: 1050, block_count: 35, capacity: 1921 });
        assert((CodeWord { ecc_codeword_count: 1050, block_count: 35, capacity: 1921 }).wf()) by (nonlinear_arith);
        assert(codeword_info_spec(28, ECLevel::High) == CodeWord { ecc_codeword_count: 1260, block_count: 42, capacity: 1921 });
        assert((CodeWord { ecc_codeword_count: 1260, block_count: 42, capacity: 1921 }).wf()) by (nonlinear_arith);
    } else if version == 29 {
        assert(codeword_info_spec(29, ECLevel::Low) == CodeWord { ecc_codeword_count: 420, block_count: 14, capacity: 2051 });
        assert((CodeWord { ecc_codeword_count: 420, block_count: 14, capacity: 2051 }).wf()) by (nonlinear_arith);
        assert(codeword_info_spec(29, ECLevel::Medium) == CodeWord { ecc_codeword_count: 784, block_count: 28, capacity: 2051 });
        assert((CodeWord { ecc_codeword_count: 784, block_count: 28, capacity: 2051 }).wf()) by (nonlinear_arith);
        assert(codeword_info_spec(29, ECLevel::Q) == CodeWord { ecc_codeword_count: 1140, block_count: 38, capacity: 2051 });
        assert((CodeWord { ecc_codeword_count: 1140, block_count: 38, capacity: 2051 }).wf()) by (nonlinear_arith);
        assert(codeword_info_spec(29, ECLevel::High) == CodeWord { ecc_codeword_count: 1350, block_count: 45, capacity: 2051 });
        assert((CodeWord { ecc_codeword_count: 1350, block_count: 45, capacity: 2051 }).wf()) by (nonlinear_arith);
    } else if version == 30 {
        assert(codeword_info_spec(30, ECLevel::Low) == CodeWord { ecc_codeword_count: 450, block_count: 15, capacity: 2185 });
        assert((CodeWord { ecc_codeword_count: 450, block_count: 15, capacity: 2185 }).wf()) by (nonlinear_arith);
        assert(codeword_info_spec(30, ECLevel::Medium) == CodeWord { ecc_codeword_count: 812, block_count: 29, capacity: 2185 });
        assert((CodeWord { ecc_codeword_count: 812, block_count: 29, capacity: 2185 }).wf()) by (nonlinear_arith);
        assert(codeword_info_spec(30, ECLevel::Q) == CodeWord { ecc_codeword_count: 1200, block_count: 40, capacity: 2185 });
        assert((CodeWord { ecc_codeword_count: 1200, block_count: 40, capacity: 2185 }).wf()) by (nonlinear_arith);
        assert(codeword_info_spec(30, ECLevel::High) == CodeWord { ecc_codeword_count: 1440, block_count: 48, capacity: 2185 });
        assert((CodeWord { ecc_codeword_count: 1440, block_count: 48, capacity: 2185 }).wf()) by (nonlinear_arith);
    }
}

#[verifier::spinoff_prover]
proof fn lemma_table_rows_31_35(version: usize, level: ECLevel)
    requires
        31 <= version <= 35,
    ensures
        codeword_info_spec(version, level).wf(),
        codeword_info_spec(version, level).capacity <= 3706,
        version <= 9 ==> codeword_info_spec(version, level).data_len() < 256,
{
    if version == 31 {
        assert(codeword_info_spec(31, ECLevel::Low) == CodeWord { ecc_codeword_count: 480, block_count: 16, capacity: 2323 });
        assert((CodeWord { ecc_codeword_count: 480, block_count: 16, capacity: 2323 }).wf()) by (nonlinear_arith);
        assert(codeword_info_spec(31, ECLevel::Medium) == CodeWord { ecc_codeword_count: 868, block_count: 31, capacity: 2323 });
        assert((CodeWord { ecc_codeword_count: 868, block_count: 31, capacity: 2323 }).wf()) by (nonlinear_arith);
        assert(codeword_info_spec(31, ECLevel::Q) == CodeWord { ecc_codeword_count: 1290, block_count: 43, capacity: 2323 });
        assert((CodeWord { ecc_codeword_count: 1290, block_count: 43, capacity: 2323 }).wf()) by (nonlinear_arith);
        assert(codeword_info_spec(31, ECLevel::High) == CodeWord { ecc_codeword_count: 1530, block_count: 51, capacity: 2323 });
        assert((CodeWord { ecc_codeword_count: 1530, block_count: 51, capacity: 2323 }).wf()) by (nonlinear_arith);
    } else if version == 32 {
        assert(codeword_info_spec(32, ECLevel::Low) == CodeWord { ecc_codeword_count: 510, block_count: 17, capacity: 2465 });
        assert((CodeWord { ecc_codeword_count: 510, block_count: 17, capacity: 2465 }).wf()) by (nonlinear_arith);
        assert(codeword_info_spec(32, ECLevel::Medium) == CodeWord { ecc_codeword_count: 924, block_count: 33, capacity: 2465 });
        assert((CodeWord { ecc_codeword_count: 924, block_count: 33, capacity: 2465 }).wf()) by (nonlinear_arith);
        assert(codeword_info_spec(32, ECLevel::Q) == CodeWord { ecc_codeword_count: 1350, block_count: 45, capacity: 2465 });
        assert((CodeWord { ecc_codeword_count: 1350, block_count: 45, capacity: 2465 }).wf()) by (nonlinear_arith);
        assert(codeword_info_spec(32, ECLevel::High) == CodeWord { ecc_codeword_count: 1620, block_count: 54, capacity: 2465 });
        assert((CodeWord { ecc_codeword_count: 1620, block_count: 54, capacity: 2465 }).wf()) by (nonlinear_arith);
    } else if version == 33 {
        assert(codeword_info_spec(33, ECLevel::Low) == CodeWord { ecc_codeword_count: 540, block_count: 18, capacity: 2611 });
        assert((CodeWord { ecc_codeword_count: 540, block_count: 18, capacity: 2611 }).wf()) by (nonlinear_arith);
        assert(codeword_info_spec(33, ECLevel::Medium) == CodeWord { ecc_codeword_count: 980, block_count: 35, capacity: 2611 });
        assert((CodeWord { ecc_codeword_count: 980, block_count: 35, capacity: 2611 }).wf()) by (nonlinear_arith);
        assert(codeword_info_spec(33, ECLevel::Q) == CodeWord { ecc_codeword_count: 1440, block_count: 48, capacity: 2611 });
        assert((CodeWord { ecc_codeword_count: 1440, block_count: 48, capacity: 2611 }).wf()) by (nonlinear_arith);
        assert(codeword_info_spec(33, ECLevel::High) == CodeWord { ecc_codeword_count: 1710, block_count: 57, capacity: 2611 });
        assert((CodeWord { ecc_codeword_count: 1710, block_count: 57, capacity: 2611 }).wf()) by (nonlinear_arith);
    } else if version == 34 {
        assert(codeword_info_spec(34, ECLevel::Low) == CodeWord { ecc_codeword_count: 570, block_count: 19, capacity: 2761 });
        assert((CodeWord { ecc_codeword_count: 570, block_count: 19, capacity: 2761 }).wf()) by (nonlinear_arith);
        assert(codeword_info_spec(34, ECLevel::Medium) == CodeWord { ecc_codeword_count: 1036, block_count: 37, capacity: 2761 });
        assert((CodeWord { ecc_codeword_count: 1036, block_count: 37, capacity: 2761 }).wf()) by (nonlinear_arith);
        assert(codeword_info_spec(34, ECLevel::Q) == CodeWord { ecc_codeword_count: 1530, block_count: 51, capacity: 2761 });
        assert((CodeWord { ecc_codeword_count: 1530, block_count: 51, capacity: 2761 }).wf()) by (nonlinear_arith);
        assert(codeword_info_spec(34, ECLevel::High) == CodeWord { ecc_codeword_count: 1800, block_count: 60, capacity: 2761 });
        assert((CodeWord { ecc_codeword_count: 1800, block_count: 60, capacity: 2761 }).wf()) by (nonlinear_arith);
    } else if version == 35 {
        assert(codeword_info_spec(35, ECLevel::Low) == CodeWord { ecc_codeword_count: 570, block_count: 19, capacity: 2876 });
        assert((CodeWord { ecc_codeword_count: 570, block_count: 19, capacity: 2876 }).wf()) by (nonlinear_arith);
        assert(codeword_info_spec(35, ECLevel::Medium) == CodeWord { ecc_codeword_count: 1064, block_count: 38, capacity: 2876 });
        assert((CodeWord { ecc_codeword_count: 1064, block_count: 38, capacity: 2876 }).wf()) by (nonlinear_arith);
        assert(codeword_info_spec(35, ECLevel::Q) == CodeWord { ecc_codeword_count: 1590, block_count: 53, capacity: 2876 });
        assert((CodeWord { ecc_codeword_count: 1590, block_count: 53, capacity: 2876 }).wf()) by (nonlinear_arith);
        assert(codeword_info_spec(35, ECLevel::High) == CodeWord { ecc_codeword_count: 1890, block_count: 63, capacity: 2876 });
        assert((CodeWord { ecc_codeword_count: 1890, block_count: 63, capacity: 2876 }).wf()) by (nonlinear_arith);
    }
}

#[verifier::spinoff_prover]
proof fn lemma_table_rows_36_40(version: usize, level: ECLevel)
    requires
        36 <= version <= 40,
    ensures
        codeword_info_spec(version, level).wf(),
        codeword_info_spec(version, level).capacity <= 3706,
        version <= 9 ==> codeword_info_spec(version, level).data_len() < 256,
{
    if version == 36 {
        assert(codeword_info_spec(36, ECLevel::Low) == CodeWord { ecc_codeword_count: 600, block_count: 20, capacity: 3034 });
        assert((CodeWord { ecc_codeword_count: 600, block_count: 20, capacity: 3034 }).wf()) by (nonlinear_arith);
        assert(codeword_info_spec(36, ECLevel::Medium) == CodeWord { ecc_codeword_count: 1120, block_count: 40, capacity: 3034 });
        assert((CodeWord { ecc_codeword_count: 1120, block_count: 40, capacity: 3034 }).wf()) by (nonlinear_arith);
        assert(codeword_info_spec(36, ECLevel::Q) == CodeWord { ecc_codeword_count: 1680, block_count: 56, capacity: 3034 });
        assert((CodeWord { ecc_codeword_count: 1680, block_count: 56, capacity: 3034 }).wf()) by (nonlinear_arith);
        assert(codeword_info_spec(36, ECLevel::High) == CodeWord { ecc_codeword_count: 1980, block_count: 66, capacity: 3034 });
        assert((CodeWord { ecc_codeword_count: 1980, block_count: 66, capacity: 3034 }).wf()) by (nonlinear_arith);
    } else if version == 37 {
        assert(codeword_info_spec(37, ECLevel::Low) == CodeWord { ecc_codeword_count: 630, block_count: 21, capacity: 3196 });
        assert((CodeWord { ecc_codeword_count: 630, block_count: 21, capacity: 3196 }).wf()) by (nonlinear_arith);
        assert(codeword_info_spec(37, ECLevel::Medium) == CodeWord { ecc_codeword_count: 1204, block_count: 43, capacity: 3196 });
        assert((CodeWord { ecc_codeword_count: 1204, block_count: 43, capacity: 3196 }).wf()) by (nonlinear_arith);
        assert(codeword_info_spec(37, ECLevel::Q) == CodeWord { ecc_codeword_count: 1770, block_count: 59, capacity: 3196 });
        assert((CodeWord { ecc_codeword_count: 1770, block_count: 59, capacity: 3196 }).wf()) by (nonlinear_arith);
        assert(codeword_info_spec(37, ECLevel::High) == CodeWord { ecc_codeword_count: 2100, block_count: 70, capacity: 3196 });
        assert((CodeWord { ecc_codeword_count: 2100, block_count: 70, capacity: 3196 }).wf()) by (nonlinear_arith);
    } else if version == 38 {
        assert(codeword_info_spec(38, ECLevel::Low) == CodeWord { ecc_codeword_count: 660, block_count: 22, capacity: 3362 });
        assert((CodeWord { ecc_codeword_count: 660, block_count: 22, capacity: 3362 }).wf()) by (nonlinear_arith);
        assert(codeword_info_spec(38, ECLevel::Medium) == CodeWord { ecc_codeword_count: 1260, block_count: 45, capacity: 3362 });
        assert((CodeWord { ecc_codeword_count: 1260, block_count: 45, capacity: 3362 }).wf()) by (nonlinear_arith);
        assert(codeword_info_spec(38, ECLevel::Q) == CodeWord { ecc_codeword_count: 1860, block_count: 62, capacity: 3362 });
        assert((CodeWord { ecc_codeword_count: 1860, block_count: 62, capacity: 3362 }).wf()) by (nonlinear_arith);
        assert(codeword_info_spec(38, ECLevel::High) == CodeWord { ecc_codeword_count: 2220, block_count: 74, capacity: 3362 });
        assert((CodeWord { ecc_codeword_count: 2220, block_count: 74, capacity: 3362 }).wf()) by (nonlinear_arith);
    } else if version == 39 {
        assert(codeword_info_spec(39, ECLevel::Low) == CodeWord { ecc_codeword_count: 720, block_count: 24, capacity: 3532 });
        assert((CodeWord { ecc_codeword_count: 720, block_count: 24, capacity: 3532 }).wf()) by (nonlinear_arith);
        assert(codeword_info_spec(39, ECLevel::Medium) == CodeWord { ecc_codeword_count: 1316, block_count: 47, capacity: 3532 });
        assert((CodeWord { ecc_codeword_count: 1316, block_count: 47, capacity: 3532 }).wf()) by (nonlinear_arith);
        assert(codeword_info_spec(39, ECLevel::Q) == CodeWord { ecc_codeword_count: 1950, block_count: 65, capacity: 3532 });
        assert((CodeWord { ecc_codeword_count: 1950, block_count: 65, capacity: 3532 }).wf()) by (nonlinear_arith);
        assert(codeword_info_spec(39, ECLevel::High) == CodeWord { ecc_codeword_count: 2310, block_count: 77, capacity: 3532 });
        assert((CodeWord { ecc_codeword_count: 2310, block_count: 77, capacity: 3532 }).wf()) by (nonlinear_arith);
    } else if version == 40 {
        assert(codeword_info_spec(40, ECLevel::Low) == CodeWord { ecc_codeword_count: 750, block_count: 25, capacity: 3706 });
        assert((CodeWord { ecc_codeword_count: 750, block_count: 25, capacity: 3706 }).wf()) by (nonlinear_arith);
        assert(codeword_info_spec(40, ECLevel::Medium) == CodeWord { ecc_codeword_count: 1372, block_count: 49, capacity: 3706 });
        assert((CodeWord { ecc_codeword_count: 1372, block_count: 49, capacity: 3706 }).wf()) by (nonlinear_arith);
        assert(codeword_info_spec(40, ECLevel::Q) == CodeWord { ecc_codeword_count: 2040, block_count: 68, capacity: 3706 });
        assert((CodeWord { ecc_codeword_count: 2040, block_count: 68, capacity: 3706 }).wf()) by (nonlinear_arith);
        assert(codeword_info_spec(40, ECLevel::High) == CodeWord { ecc_codeword_count: 2430, block_count: 81, capacity: 3706 });
        assert((CodeWord { ecc_codeword_count: 2430, block_count: 81, capacity: 3706 }).wf()) by (nonlinear_arith);
    }
}

impl CodeWord {
    pub open spec fn data_len(&self) -> int {
        self.capacity - self.ecc_codeword_count
    }

    pub open spec fn ecc_per_block(&self) -> int {
        self.ecc_codeword_count as int / self.block_count as int
    }

    /// Consistent budgets: the error-correction codewords share evenly over
    /// the blocks, and every block fits one Reed-Solomon codeword of 255 bytes.
    pub open spec fn wf(&self) -> bool {
        &&& self.block_count > 0
        &&& self.ecc_codeword_count < self.capacity
        &&& self.ecc_codeword_count % self.block_count == 0
        &&& self.data_len() / self.block_count as int + 1 + self.ecc_per_block() <= 255
        &&& self.data_len() >= self.block_count
    }

    pub fn get_data_codeword_length(&self) -> (r: usize)
        requires
            self.ecc_codeword_count <= self.capacity,
        ensures
            r == self.data_len(),
    {
        self.capacity - self.ecc_codeword_count
    }

    /// Blocks of group one (shorter) and group two (one codeword longer).
    pub fn get_block_count_for_groups(&self) -> (r: (usize, usize))
        requires
            self.wf(),
        ensures
            r.1 == self.data_len() % self.block_count as int,
            r.0 == self.block_count - r.1,
    {
        let data = self.capacity - self.ecc_codeword_count;
        let group_two = data % self.block_count;
        let group_one = self.block_count - group_two;
        (group_one, group_two)
    }

    /// The two groups of data blocks: group one holds `data / blocks`
    /// codewords per block, group two one more.
    pub fn get_data_cw_total_for_groups(&self) -> (r: (BlockContent, BlockContent))
        requires
            self.wf(),
        ensures
            r.0.blocks == self.block_count - self.data_len() % self.block_count as int,
            r.1.blocks == self.data_len() % self.block_count as int,
            r.0.codewords_per_block == self.data_len() / self.block_count as int,
            r.1.codewords_per_block == if r.1.blocks > 0 {
                self.data_len() / self.block_count as int + 1
            } else {
                0
            },
            r.0.blocks * r.0.codewords_per_block + r.1.blocks * r.1.codewords_per_block
                == self.data_len(),
    {
        let (group_one_blocks, group_two_blocks) = self.get_block_count_for_groups();
        let data = self.capacity - self.ecc_codeword_count;
        let group_one_capacity = data / self.block_count;
        let group_two_capacity = if group_two_blocks > 0 {
            group_one_capacity + 1
        } else {
            0
        };
        proof {
            let d = data as int;
            let b = self.block_count as int;
            vstd::arithmetic::div_mod::lemma_fundamental_div_mod(d, b);
            assert((b - d % b) * (d / b) + (d % b) * (d / b + 1) == b * (d / b) + d % b)
                by (nonlinear_arith);
        }
        (
            BlockContent { blocks: group_one_blocks, codewords_per_block: group_one_capacity },
            BlockContent { blocks: group_two_blocks, codewords_per_block: group_two_capacity },
        )
    }
}

/// The codeword budget of `version` at `err_correction_level`.
pub fn codeword_info(version: usize, err_correction_level: &ECLevel) -> (r: CodeWord)
    requires
        valid_version(version as int),
    ensures
        r == codeword_info_spec(version, *err_correction_level),
{
    let ecc_settings = ecc_row(version);
    let block_count = block_row(version);
    let capacity = total_codewords(version);
    let (ec_cw_count, blocks): (usize, usize) = match err_correction_level {
        ECLevel::Low => (ecc_settings.0, block_count.0),
        ECLevel::Medium => (ecc_settings.1, block_count.1),
        ECLevel::Q => (ecc_settings.2, block_count.2),
        ECLevel::High => (ecc_settings.3, block_count.3),
    };
    CodeWord { ecc_codeword_count: ec_cw_count, capacity: capacity, block_count: blocks }
}

pub open spec fn square_count_spec(version: int) -> int {
    (version - 1) * 4 + 21
}

/// Modules per side of a symbol of `version`.
pub fn square_count(version: usize) -> (r: usize)
    requires
        valid_version(version as int),
    ensures
        r == square_count_spec(version as int),
{
    ((version - 1) * 4) + 21
}

/// The index of the module at `index` moved by `modifiers` (rows, columns),
/// or `None` when the move leaves the grid.
pub fn get_index_value(index: isize, modifiers: (isize, isize), canvas_size: isize) -> (r: Option<
    usize,
>)
    requires
        0 < canvas_size <= 32768,
        0 <= index < canvas_size * canvas_size,
        -65536 <= modifiers.0 <= 65536,
        -65536 <= modifiers.1 <= 65536,
    ensures
        ({
            let cx = index / canvas_size + modifiers.0;
            let cy = index % canvas_size + modifiers.1;
            r == if 0 <= cx < canvas_size && 0 <= cy < canvas_size {
                Some((cx * canvas_size + cy) as usize)
            } else {
                None
            }
        }),
{
    proof {
        vstd::arithmetic::div_mod::lemma_div_pos_is_pos(index as int, canvas_size as int);
        vstd::arithmetic::div_mod::lemma_multiply_divide_lt(
            index as int, canvas_size as int, canvas_size as int);
    }
    let x = index / canvas_size;
    let y = index % canvas_size;
    let cx = x + modifiers.0;
    let cy = y + modifiers.1;
    if (cx > -1 && cx < canvas_size) && (cy > -1 && cy < canvas_size) {
        proof {
            assert(cx * canvas_size + cy < canvas_size * canvas_size) by (nonlinear_arith)
                requires 0 <= cx < canvas_size, 0 <= cy < canvas_size;
            assert(0 <= cx * canvas_size) by (nonlinear_arith)
                requires 0 <= cx, 0 < canvas_size;
            assert(canvas_size * canvas_size <= 32768 * 32768) by (nonlinear_arith)
                requires 0 < canvas_size <= 32768;
        }
        Some((cx * canvas_size + cy) as usize)
    } else {
        None
    }
}

pub open spec fn set_color_spec(index: usize) -> Color {
    match index {
        0 => Color { r: 255, g: 120, b: 16 },
        1 => Color { r: 205, g: 120, b: 16 },
        2 => Color { r: 155, g: 120, b: 16 },
        3 => Color { r: 105, g: 120, b: 16 },
        4 => Color { r: 55, g: 120, b: 16 },
        5 => Color { r: 5, g: 120, b: 16 },
        6 => Color { r: 255, g: 175, b: 16 },
        7 => black(),
        _ => Color { r: 255, g: 255, b: 0 },
    }
}

/// A tint for each of the first eight indices, for colour-coded rendering.
pub fn set_color(index: usize) -> (c: Color)
    ensures
        c == set_color_spec(index),
{
    match index {
        0 => Color { r: 255, g: 120, b: 16 },
        1 => Color { r: 205, g: 120, b: 16 },
        2 => Color { r: 155, g: 120, b: 16 },
        3 => Color { r: 105, g: 120, b: 16 },
        4 => Color { r: 55, g: 120, b: 16 },
        5 => Color { r: 5, g: 120, b: 16 },
        6 => Color { r: 255, g: 175, b: 16 },
        7 => Color { r: 0, g: 0, b: 0 },
        _ => Color { r: 255, g: 255, b: 0 },
    }
}

/// The 20 x 20 pixels of a module in a rendering with an 80-pixel margin,
/// as (x, y, colour), row by row.
pub fn get_pixel_points(cell: &Cell) -> (r: Vec<(u32, u32, Color)>)
    requires
        cell.point.0 < 100000,
        cell.point.1 < 100000,
    ensures
        r@.len() == 400,
        forall|k: int|
            0 <= k < 400 ==> #[trigger] r@[k] == (
                (cell.point.1 * 20 + 80 + k % 20) as u32,
                (cell.point.0 * 20 + 80 + k / 20) as u32,
                cell.color,
            ),
{
    let i = ((cell.point.0 * 20) as u32) + 80;
    let j = ((cell.point.1 * 20) as u32) + 80;
    let mut pixels: Vec<(u32, u32, Color)> = Vec::new();
    let mut row: u32 = 0;
    while row < 20
        invariant
            row <= 20,
            cell.point.0 < 100000,
            cell.point.1 < 100000,
            i == cell.point.0 * 20 + 80,
            j == cell.point.1 * 20 + 80,
            pixels@.len() == row * 20,
            forall|k: int|
                0 <= k < row * 20 ==> #[trigger] pixels@[k] == (
                    (j + k % 20) as u32,
                    (i + k / 20) as u32,
                    cell.color,
                ),
        decreases 20 - row,
    {
        let mut col: u32 = 0;
        while col < 20
            invariant
                row < 20,
                col <= 20,
                cell.point.0 < 100000,
                cell.point.1 < 100000,
                i == cell.point.0 * 20 + 80,
                j == cell.point.1 * 20 + 80,
                pixels@.len() == row * 20 + col,
                forall|k: int|
                    0 <= k < row * 20 + col ==> #[trigger] pixels@[k] == (
                        (j + k % 20) as u32,
                        (i + k / 20) as u32,
                        cell.color,
                    ),
            decreases 20 - col,
        {
            proof {
                let k = row * 20 + col;
                vstd::arithmetic::div_mod::lemma_fundamental_div_mod_converse(
                    k as int, 20, row as int, col as int);
            }
            pixels.push((j + col, i + row, cell.color));
            col += 1;
        }
        row += 1;
    }
    pixels
}

/// The 18 indices of a 6 x 3 version-information block: entry `n` lies
/// `n % 3` minor steps and `n / 3` major steps from `start`.
pub fn get_indices_for_dimensions(start: usize, minor: usize, major: usize) -> (r: Vec<usize>)
    requires
        start + 2 * minor + 5 * major <= usize::MAX,
    ensures
        r@.len() == 18,
        forall|n: int|
            0 <= n < 18 ==> #[trigger] r@[n] == start + (n % 3) * minor + (n / 3) * major,
{
    let mut indices: Vec<usize> = Vec::new();
    let mut n: usize = 0;
    while n < 18
        invariant
            n <= 18,
            start + 2 * minor + 5 * major <= usize::MAX,
            indices@.len() == n,
            forall|m: int|
                0 <= m < n ==> #[trigger] indices@[m] == start + (m % 3) * minor + (m / 3)
                    * major,
        decreases 18 - n,
    {
        proof {
            assert(n % 3 <= 2 && n / 3 <= 5);
            assert((n % 3) * minor <= 2 * minor) by (nonlinear_arith)
                requires n % 3 <= 2;
            assert((n / 3) * major <= 5 * major) by (nonlinear_arith)
                requires n / 3 <= 5;
        }
        indices.push(start + (n % 3) * minor + (n / 3) * major);
        n += 1;
    }
    indices
}

} // verus!
