use vstd::prelude::*;
use crate::capacity::{codeword_info_spec, lemma_codeword_table, square_count_spec};
use crate::cell::Cell;
use crate::codewords::{column, data_codewords_spec, final_codewords_spec, interleave};
use crate::config::{remainder_bits_spec, CellTrack, ECLevel, QRConfig, QrError};
use crate::masking::finish_spec;
use crate::placement::{message_bits, run_placement, zig_zag_spec};
use crate::qr::{layout_spec, QR};

verus! {

/// The interleaved data and error-correction codewords of a message.
pub open spec fn encoded_codewords(mode: u8, version: int, level: ECLevel, data: Seq<u8>) -> Seq<u8> {
    let props = codeword_info_spec(version as usize, level);
    final_codewords_spec(data_codewords_spec(mode, version, data, props.data_len()), props)
}

/// The grid after the codewords and remainder bits are placed, and the
/// number of bits placed.
pub open spec fn placed_spec(version: int, cw: Seq<u8>) -> (Seq<Cell>, int) {
    let size = square_count_spec(version);
    let path = zig_zag_spec(size);
    run_placement(layout_spec(version), path, message_bits(cw, remainder_bits_spec(version)), path.len() as int)
}

/// The finished symbol.
pub open spec fn symbol_spec(mode: u8, version: int, level: ECLevel, data: Seq<u8>) -> Seq<Cell> {
    finish_spec(placed_spec(version, encoded_codewords(mode, version, level, data)).0, version, level)
}

proof fn lemma_column_len(blocks: Seq<Seq<u8>>, i: int, j: int)
    ensures
        column(blocks, i, j).len() <= if j > 0 { j } else { 0 },
    decreases j,
{
    if j > 0 {
        lemma_column_len(blocks, i, j - 1);
    }
}

proof fn lemma_interleave_len(blocks: Seq<Seq<u8>>, w: int)
    requires
        0 <= w,
    ensures
        interleave(blocks, w).len() <= w * blocks.len(),
    decreases w,
{
    if w > 0 {
        lemma_interleave_len(blocks, w - 1);
        lemma_column_len(blocks, w - 1, blocks.len() as int);
        assert(w * blocks.len() == (w - 1) * blocks.len() + blocks.len()) by (nonlinear_arith);
    }
}

impl QRConfig {
    /// Runs the whole pipeline: codewords, error correction, geometry,
    /// placement, masking and metadata.
    pub fn gen_qr_code(&mut self) -> (r: Result<(QR, CellTrack), QrError>)
        requires
            old(self).wf(),
        ensures
            !old(self).fits() ==> r == Err::<(QR, CellTrack), QrError>(QrError::MessageTooLarge),
            old(self).fits() ==> {
                let v = old(self).version as int;
                let cw = encoded_codewords(old(self).encoding, v, old(self).err_correction_level, old(self).data@);
                let size = square_count_spec(v);
                &&& final(self).codewords@ == cw
                &&& (r is Ok <==> placed_spec(v, cw).1 == message_bits(cw, remainder_bits_spec(v)).len())
                &&& (r is Err ==> r == Err::<(QR, CellTrack), QrError>(QrError::LayoutMismatch))
                &&& (r matches Ok((qr, _)) ==> qr.body@ == symbol_spec(
                    old(self).encoding,
                    v,
                    old(self).err_correction_level,
                    old(self).data@,
                ))
            },
    {
        proof {
            lemma_codeword_table(self.version, self.err_correction_level);
        }
        match self.translate_data() {
            Ok(()) => {},
            Err(e) => {
                return Err(e);
            },
        }
        let ghost props = self.codeword_properties;
        assert(self.codewords@.len() == props.data_len());
        let ghost data_cw = self.codewords@;
        self.encode_error_correction_codewords();
        proof {
            let d = props.data_len();
            let b = props.block_count as int;
            let width = if d % b == 0 { d / b } else { d / b + 1 };
            vstd::arithmetic::div_mod::lemma_fundamental_div_mod(d, b);
            vstd::arithmetic::div_mod::lemma_fundamental_div_mod(props.ecc_codeword_count as int, b);
            assert(0 <= d / b) by (nonlinear_arith) requires 0 <= d, 0 < b;
            lemma_interleave_len(crate::codewords::data_blocks(data_cw, props), width);
            lemma_interleave_len(crate::codewords::ecc_blocks(data_cw, props), props.ecc_per_block());
            assert(width * b <= d + b) by (nonlinear_arith)
                requires d == b * (d / b) + d % b, 0 <= d % b < b, width <= d / b + 1;
            let e = props.ecc_codeword_count as int;
            assert(props.ecc_per_block() * b <= e) by (nonlinear_arith)
                requires e == b * props.ecc_per_block() + e % b, 0 <= e % b;
            let db = crate::codewords::data_blocks(data_cw, props);
            let eb = crate::codewords::ecc_blocks(data_cw, props);
            assert(db.len() == b);
            assert(eb.len() == b);
            assert(interleave(db, width).len() <= d + b);
            assert(interleave(eb, props.ecc_per_block()).len() <= e);
            assert(self.codewords@ == interleave(db, width) + interleave(eb, props.ecc_per_block()));
            assert(self.codewords@.len() <= 20000);
        }
        let mut canvas = QR { body: self.create_body() };
        canvas.setup(self);
        let ghost laid = canvas.body@;
        let tracker = match self.process_data(&mut canvas) {
            Ok(t) => t,
            Err(e) => {
                return Err(e);
            },
        };
        proof {
            let path = zig_zag_spec(self.size as int);
            let bits = message_bits(self.codewords@, remainder_bits_spec(self.version as int));
            crate::placement::lemma_run_bounds(laid, path, bits, path.len() as int);
        }
        self.post_process_data(&mut canvas);
        Ok((canvas, tracker))
    }
}

} // verus!
