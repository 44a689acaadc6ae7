use vstd::prelude::*;
use crate::capacity::{
    codeword_info, codeword_info_spec, lemma_codeword_table, square_count, square_count_spec,
    valid_version, CodeWord,
};

verus! {

/// Error-correction level of the symbol.
#[derive(Copy, Clone, Debug, PartialEq, Eq, Structural)]
pub enum ECLevel {
    Low,
    Medium,
    Q,
    High,
}

/// How the message is encoded. Only byte mode is produced.
#[derive(Copy, Clone, Debug, PartialEq, Eq, Structural)]
pub enum EncodingMode {
    Numeric,
    AlphaNumeric,
    Byte,
    Japanese,
}

/// Why no symbol was produced.
#[derive(Copy, Clone, Debug, PartialEq, Eq, Structural)]
pub enum QrError {
    /// The message does not fit the data codewords of the version and level.
    MessageTooLarge,
    /// The grid has fewer free modules than the codewords need.
    LayoutMismatch,
}

/// Per-step record of the data placement: the bit index, the codeword
/// index and the grid index of every module visited while codewords remain.
pub struct CellTrack(pub Vec<usize>, pub Vec<usize>, pub Vec<usize>);

/// Everything one encode works from.
pub struct QRConfig {
    pub version: usize,
    pub data: Vec<u8>,
    pub codewords: Vec<u8>,
    pub codeword_properties: CodeWord,
    pub mask: usize,
    pub encoding: u8,
    pub encoding_mode: EncodingMode,
    pub debug_mode: bool,
    pub requires_alignment: bool,
    pub finder_points: [(usize, usize); 3],
    pub size: usize,
    pub err_correction_level: ECLevel,
}

/// Byte-mode indicator.
pub const BYTE_MODE: u8 = 4;

/// Codewords taken by the mode indicator, the length field, the message and
/// the terminator nibble.
pub open spec fn stream_len(version: int, data_len: int) -> int {
    if version <= 9 {
        data_len + 2
    } else {
        data_len + 3
    }
}

pub open spec fn remainder_bits_spec(version: int) -> int {
    if 2 <= version <= 6 {
        7
    } else if (14 <= version <= 20) || (28 <= version <= 34) {
        3
    } else {
        0
    }
}

impl QRConfig {
    /// The configuration is consistent with its version and level.
    pub open spec fn wf(&self) -> bool {
        &&& valid_version(self.version as int)
        &&& self.size == square_count_spec(self.version as int)
        &&& self.codeword_properties == codeword_info_spec(
            self.version,
            self.err_correction_level,
        )
        &&& self.encoding < 16
        &&& self.finder_points@ == seq![
            (0usize, 0usize),
            ((self.size - 7) as usize, 0usize),
            (0usize, (self.size - 7) as usize),
        ]
    }

    /// The message fits the data codewords of the version and level.
    pub open spec fn fits(&self) -> bool {
        stream_len(self.version as int, self.data@.len() as int)
            <= self.codeword_properties.data_len()
    }

    /// A byte-mode configuration for `message` at `version` and `ec_level`.
    pub fn new(version: usize, ec_level: ECLevel, message: Vec<u8>) -> (r: QRConfig)
        requires
            valid_version(version as int),
        ensures
            r.wf(),
            r.version == version,
            r.err_correction_level == ec_level,
            r.data@ == message@,
            r.codewords@.len() == 0,
            r.encoding == BYTE_MODE,
            r.encoding_mode == EncodingMode::Byte,
            r.requires_alignment == (version > 1),
    {
        let size = square_count(version);
        let codeword_properties = codeword_info(version, &ec_level);
        let r = QRConfig {
            version: version,
            data: message,
            codewords: Vec::new(),
            codeword_properties: codeword_properties,
            mask: 1,
            encoding: BYTE_MODE,
            encoding_mode: EncodingMode::Byte,
            debug_mode: false,
            requires_alignment: version > 1,
            err_correction_level: ec_level,
            size: size,
            finder_points: [(0, 0), (size - 7, 0), (0, size - 7)],
        };
        assert(r.finder_points@ =~= seq![(0usize, 0usize), ((size - 7) as usize, 0usize), (0usize, (size - 7) as usize)]);
        r
    }

    /// Total error-correction codewords of the version and level.
    pub fn get_ecc_length(&self) -> (r: usize)
        ensures
            r == self.codeword_properties.ecc_codeword_count,
    {
        self.codeword_properties.ecc_codeword_count
    }

    /// The zero bits placed after the last codeword.
    pub fn get_remainder_bit_length(&self) -> (r: isize)
        ensures
            r == remainder_bits_spec(self.version as int),
    {
        if 2 <= self.version && self.version <= 6 {
            7
        } else if (14 <= self.version && self.version <= 20) || (28 <= self.version
            && self.version <= 34) {
            3
        } else {
            0
        }
    }

    /// Width in bits of the character-count field for the configured mode.
    pub fn get_content_length(&self) -> (r: usize)
        ensures
            ({
                let modifier: int = if 1 <= self.version <= 10 {
                    0
                } else if 11 <= self.version <= 27 {
                    2
                } else {
                    4
                };
                r == if self.encoding == 1 {
                    10 + modifier
                } else if self.encoding == 2 {
                    9 + modifier
                } else if self.encoding == 8 {
                    12 + modifier
                } else if self.version < 10 {
                    8
                } else {
                    16
                }
            }),
    {
        let modifier: usize = if 1 <= self.version && self.version <= 10 {
            0
        } else if 11 <= self.version && self.version <= 27 {
            2
        } else {
            4
        };
        match self.encoding {
            1 => 10 + modifier,
            2 => 9 + modifier,
            8 => 12 + modifier,
            _ => {
                if self.version < 10 {
                    8
                } else {
                    16
                }
            },
        }
    }

    /// Checks that the message fits the version and level.
    pub fn verify_version(&self) -> (r: Result<(), QrError>)
        requires
            self.wf(),
        ensures
            r is Ok <==> self.fits(),
            r is Err ==> r == Err::<(), QrError>(QrError::MessageTooLarge),
    {
        proof {
            lemma_codeword_table(self.version, self.err_correction_level);
        }
        let header: usize = if self.version <= 9 {
            2
        } else {
            3
        };
        let data_cw_length = self.codeword_properties.get_data_codeword_length();
        if self.data.len() <= data_cw_length && header <= data_cw_length - self.data.len() {
            Ok(())
        } else {
            Err(QrError::MessageTooLarge)
        }
    }
}

} // verus!
