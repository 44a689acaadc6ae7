use vstd::prelude::*;
use crate::capacity::{lemma_codeword_table, CodeWord};
use crate::config::{QRConfig, QrError};

verus! {

/// The nibbles of the bit stream: the mode indicator, the message length
/// (8 bits up to version 9, else 16), the message bytes, and a zero
/// terminator nibble.
pub open spec fn stream_nibbles(mode: u8, version: int, data: Seq<u8>) -> Seq<u8> {
    let n = data.len() as int;
    let len_nibbles: Seq<u8> = if version <= 9 {
        seq![((n / 16) % 16) as u8, (n % 16) as u8]
    } else {
        seq![((n / 4096) % 16) as u8, ((n / 256) % 16) as u8, ((n / 16) % 16) as u8, (n % 16) as u8]
    };
    let data_nibbles = Seq::new((2 * n) as nat, |k: int| if k % 2 == 0 { data[k / 2] / 16 } else { data[k / 2] % 16 });
    seq![mode % 16] + len_nibbles + data_nibbles + seq![0u8]
}

/// Pairs of nibbles as bytes, high nibble first.
pub open spec fn pack_nibbles(nib: Seq<u8>) -> Seq<u8> {
    Seq::new((nib.len() / 2) as nat, |i: int| (nib[2 * i] * 16 + nib[2 * i + 1]) as u8)
}

/// `s` filled up to `total` codewords with 0xEC, 0x11, 0xEC, ...
pub open spec fn pad_codewords(s: Seq<u8>, total: int) -> Seq<u8> {
    s + Seq::new((total - s.len()) as nat, |k: int| if k % 2 == 0 { 0xECu8 } else { 0x11u8 })
}

/// The data codewords of a configuration.
pub open spec fn data_codewords_spec(mode: u8, version: int, data: Seq<u8>, data_len: int) -> Seq<u8> {
    pad_codewords(pack_nibbles(stream_nibbles(mode, version, data)), data_len)
}

/// Names the parity bytes that a Reed-Solomon code over GF(256) with
/// `ecc_len` parity bytes appends to `data`.
pub uninterp spec fn rs_ecc(data: Seq<u8>, ecc_len: nat) -> Seq<u8>;

/// Relies on reed_solomon::Encoder::new and Encoder::encode: the encoder
/// returns the data followed by `ecc_len` parity bytes, which `ecc()` slices
/// out. Its buffer holds 256 bytes, so data and parity must fit in them.
#[verifier::external_body]
fn reed_solomon_ecc(data: &[u8], ecc_len: usize) -> (r: Vec<u8>)
    requires
        data@.len() + ecc_len <= 255,
    ensures
        r@ == rs_ecc(data@, ecc_len as nat),
        r@.len() == ecc_len,
{
    let encoder = reed_solomon::Encoder::new(ecc_len);
    encoder.encode(data).ecc().to_vec()
}

/// Start of data block `k`: group-one blocks come first.
pub open spec fn block_start(props: CodeWord, k: int) -> int {
    let b = props.block_count as int;
    let d = props.data_len();
    let g1 = b - d % b;
    let c1 = d / b;
    if k <= g1 {
        k * c1
    } else {
        g1 * c1 + (k - g1) * (c1 + 1)
    }
}

/// The data codewords split into the blocks of the two groups.
pub open spec fn data_blocks(cw: Seq<u8>, props: CodeWord) -> Seq<Seq<u8>> {
    Seq::new(props.block_count as nat, |k: int| cw.subrange(block_start(props, k), block_start(props, k + 1)))
}

pub open spec fn ecc_blocks(cw: Seq<u8>, props: CodeWord) -> Seq<Seq<u8>> {
    Seq::new(props.block_count as nat, |k: int| rs_ecc(data_blocks(cw, props)[k], props.ecc_per_block() as nat))
}

/// Entry `i` of each of the first `j` blocks that has one, in block order.
pub open spec fn column(blocks: Seq<Seq<u8>>, i: int, j: int) -> Seq<u8>
    decreases j,
{
    if j <= 0 {
        Seq::empty()
    } else {
        column(blocks, i, j - 1) + if i < blocks[j - 1].len() { seq![blocks[j - 1][i]] } else { Seq::empty() }
    }
}

/// Round-robin over the blocks: entry 0 of every block, then entry 1, ...,
/// for the first `width` entries.
pub open spec fn interleave(blocks: Seq<Seq<u8>>, width: int) -> Seq<u8>
    decreases width,
{
    if width <= 0 {
        Seq::empty()
    } else {
        interleave(blocks, width - 1) + column(blocks, width - 1, blocks.len() as int)
    }
}

/// Data codewords interleaved, then error-correction codewords interleaved.
pub open spec fn final_codewords_spec(cw: Seq<u8>, props: CodeWord) -> Seq<u8> {
    let d = props.data_len();
    let b = props.block_count as int;
    let width = if d % b == 0 { d / b } else { d / b + 1 };
    interleave(data_blocks(cw, props), width) + interleave(ecc_blocks(cw, props), props.ecc_per_block())
}

pub open spec fn views(bs: Seq<Vec<u8>>) -> Seq<Seq<u8>> {
    Seq::new(bs.len(), |i: int| bs[i]@)
}

fn interleave_blocks(blocks: &Vec<Vec<u8>>, block_size: usize) -> (r: Vec<u8>)
    ensures
        r@ == interleave(views(blocks@), block_size as int),
{
    let ghost bs = views(blocks@);
    let mut data: Vec<u8> = Vec::new();
    let mut i: usize = 0;
    while i < block_size
        invariant
            i <= block_size,
            bs == views(blocks@),
            data@ == interleave(bs, i as int),
        decreases block_size - i,
    {
        let mut j: usize = 0;
        while j < blocks.len()
            invariant
                i < block_size,
                j <= blocks@.len(),
                bs == views(blocks@),
                data@ == interleave(bs, i as int) + column(bs, i as int, j as int),
            decreases blocks@.len() - j,
        {
            if i < blocks[j].len() {
                data.push(blocks[j][i]);
                proof {
                    assert(data@ =~= interleave(bs, i as int) + column(bs, i as int, j + 1));
                }
            } else {
                proof {
                    assert(data@ =~= interleave(bs, i as int) + column(bs, i as int, j + 1));
                }
            }
            j += 1;
        }
        i += 1;
    }
    data
}

impl QRConfig {
    /// Builds the data codewords: mode indicator, length field, message,
    /// terminator, then pad codewords up to the data capacity.
    pub fn translate_data(&mut self) -> (r: Result<(), QrError>)
        requires
            old(self).wf(),
        ensures
            final(self).wf(),
            final(self).version == old(self).version,
            final(self).err_correction_level == old(self).err_correction_level,
            final(self).encoding == old(self).encoding,
            final(self).data@ == old(self).data@,
            r is Ok <==> old(self).fits(),
            r is Err ==> r == Err::<(), QrError>(QrError::MessageTooLarge) && final(self).codewords@
                == old(self).codewords@,
            r is Ok ==> final(self).codewords@ == data_codewords_spec(
                old(self).encoding,
                old(self).version as int,
                old(self).data@,
                old(self).codeword_properties.data_len(),
            ),
    {
        proof {
            lemma_codeword_table(self.version, self.err_correction_level);
        }
        if self.verify_version().is_err() {
            return Err(QrError::MessageTooLarge);
        }
        let data_cw_length = self.codeword_properties.get_data_codeword_length();
        let n = self.data.len();
        let ghost nib_spec = stream_nibbles(self.encoding, self.version as int, self.data@);
        let mut nib: Vec<u8> = Vec::new();
        nib.push(self.encoding % 16);
        if self.version <= 9 {
            nib.push(((n / 16) % 16) as u8);
            nib.push((n % 16) as u8);
        } else {
            nib.push(((n / 4096) % 16) as u8);
            nib.push(((n / 256) % 16) as u8);
            nib.push(((n / 16) % 16) as u8);
            nib.push((n % 16) as u8);
        }
        let ghost head = nib@;
        let mut index: usize = 0;
        while index < n
            invariant
                n == self.data@.len(),
                n <= 4000,
                index <= n,
                nib@ =~= head + Seq::new((2 * index) as nat, |k: int| if k % 2 == 0 { self.data@[k / 2] / 16 } else { self.data@[k / 2] % 16 }),
            decreases n - index,
        {
            let byte = self.data[index];
            nib.push(byte / 16);
            nib.push(byte % 16);
            index += 1;
        }
        nib.push(0);
        assert(nib@ =~= nib_spec);
        let mut codewords: Vec<u8> = Vec::new();
        let mut i: usize = 0;
        let half = nib.len() / 2;
        while i < half
            invariant
                half == nib@.len() / 2,
                nib@.len() <= 10000,
                i <= half,
                forall|k: int| 0 <= k < nib@.len() ==> #[trigger] nib@[k] < 16,
                codewords@ =~= pack_nibbles(nib@).take(i as int),
            decreases half - i,
        {
            let hi = nib[2 * i];
            let lo = nib[2 * i + 1];
            codewords.push(hi * 16 + lo);
            i += 1;
        }
        assert(codewords@ =~= pack_nibbles(nib_spec));
        let ghost packed = codewords@;
        let mut swap = false;
        while codewords.len() < data_cw_length
            invariant
                packed.len() <= codewords@.len() <= data_cw_length,
                codewords@ =~= pad_codewords(packed, codewords@.len() as int),
                swap == ((codewords@.len() - packed.len()) % 2 == 1),
            decreases data_cw_length - codewords@.len(),
        {
            if swap {
                codewords.push(17u8);
            } else {
                codewords.push(236u8);
            }
            swap = !swap;
        }
        self.codewords = codewords;
        Ok(())
    }
}

proof fn lemma_block_bounds(props: CodeWord, k: int)
    requires
        props.wf(),
        0 <= k < props.block_count,
    ensures
        0 <= block_start(props, k) <= block_start(props, k + 1) <= props.data_len(),
        block_start(props, k + 1) - block_start(props, k) <= props.data_len() / props.block_count as int + 1,
        block_start(props, props.block_count as int) == props.data_len(),
{
    let b = props.block_count as int;
    let d = props.data_len();
    let g1 = b - d % b;
    let c1 = d / b;
    vstd::arithmetic::div_mod::lemma_fundamental_div_mod(d, b);
    assert(0 <= c1) by (nonlinear_arith) requires d >= 0, b > 0, c1 == d / b;
    assert(g1 * c1 + (b - g1) * (c1 + 1) == d) by (nonlinear_arith)
        requires g1 == b - d % b, d == b * c1 + d % b;
    if k + 1 <= g1 {
        assert(0 <= k * c1 <= (k + 1) * c1 <= g1 * c1) by (nonlinear_arith)
            requires 0 <= k, k + 1 <= g1, 0 <= c1;
        assert((k + 1) * c1 - k * c1 == c1) by (nonlinear_arith);
        assert(g1 * c1 <= d) by (nonlinear_arith)
            requires g1 * c1 + (b - g1) * (c1 + 1) == d, g1 <= b, 0 <= c1;
    } else {
        assert(0 <= g1 * c1) by (nonlinear_arith) requires 0 <= g1, 0 <= c1;
        if k <= g1 {
            assert(k == g1);
            assert((k - g1) * (c1 + 1) == 0) by (nonlinear_arith) requires k == g1;
        }
        assert(0 <= (k - g1) * (c1 + 1) <= (k + 1 - g1) * (c1 + 1) <= (b - g1) * (c1 + 1)) by (nonlinear_arith)
            requires g1 <= k, k + 1 <= b, 0 <= c1;
        assert((k + 1 - g1) * (c1 + 1) - (k - g1) * (c1 + 1) == c1 + 1) by (nonlinear_arith);
    }
}

fn copy_range(v: &Vec<u8>, start: usize, end: usize) -> (r: Vec<u8>)
    requires
        start <= end <= v@.len(),
    ensures
        r@ == v@.subrange(start as int, end as int),
{
    let mut out: Vec<u8> = Vec::new();
    let mut i = start;
    while i < end
        invariant
            start <= i <= end <= v@.len(),
            out@ =~= v@.subrange(start as int, i as int),
        decreases end - i,
    {
        out.push(v[i]);
        i += 1;
    }
    out
}

impl QRConfig {
    /// Splits the data codewords into blocks, appends each block's
    /// Reed-Solomon codewords, and interleaves data, then error correction.
    pub fn encode_error_correction_codewords(&mut self)
        requires
            old(self).wf(),
            old(self).codewords@.len() == old(self).codeword_properties.data_len(),
        ensures
            final(self).wf(),
            final(self).version == old(self).version,
            final(self).err_correction_level == old(self).err_correction_level,
            final(self).encoding == old(self).encoding,
            final(self).data@ == old(self).data@,
            final(self).codewords@ == final_codewords_spec(old(self).codewords@, old(self).codeword_properties),
            final(self).codewords@.len() == old(self).codeword_properties.capacity,
    {
        proof {
            lemma_codeword_table(self.version, self.err_correction_level);
        }
        let props = self.codeword_properties;
        let ghost cw = self.codewords@;
        let ecc_per_block = props.ecc_codeword_count / props.block_count;
        let (group_one, group_two) = props.get_data_cw_total_for_groups();
        let c1 = group_one.codewords_per_block;
        let g1 = group_one.blocks;
        let mut data_blocks_v: Vec<Vec<u8>> = Vec::new();
        let mut ecc_blocks_v: Vec<Vec<u8>> = Vec::new();
        let mut k: usize = 0;
        while k < props.block_count
            invariant
                props.wf(),
                props == self.codeword_properties,
                props.capacity <= 3706,
                cw == self.codewords@,
                cw.len() == props.data_len(),
                ecc_per_block == props.ecc_per_block(),
                c1 == props.data_len() / props.block_count as int,
                g1 == props.block_count - props.data_len() % props.block_count as int,
                k <= props.block_count,
                views(data_blocks_v@) =~= data_blocks(cw, props).take(k as int),
                views(ecc_blocks_v@) =~= ecc_blocks(cw, props).take(k as int),
                forall|m: int| 0 <= m < k ==> (#[trigger] ecc_blocks(cw, props)[m]).len() == ecc_per_block,
            decreases props.block_count - k,
        {
            proof {
                lemma_block_bounds(props, k as int);
                assert(k * c1 <= 3706 * 3706) by (nonlinear_arith) requires k <= 3706, c1 <= 3706;
                assert((k + 1) * c1 <= 3707 * 3706) by (nonlinear_arith) requires k <= 3706, c1 <= 3706;
                assert(g1 * c1 <= 3706 * 3706) by (nonlinear_arith) requires g1 <= 3706, c1 <= 3706;
                assert((k + 1 - g1) * (c1 + 1) <= 3707 * 3707) by (nonlinear_arith) requires k + 1 - g1 <= 3706, c1 <= 3706;
                assert((k - g1) * (c1 + 1) <= 3707 * 3707) by (nonlinear_arith) requires k - g1 <= 3706, c1 <= 3706;
            }
            let start = if k <= g1 {
                k * c1
            } else {
                g1 * c1 + (k - g1) * (c1 + 1)
            };
            let end = if k + 1 <= g1 {
                (k + 1) * c1
            } else {
                g1 * c1 + (k + 1 - g1) * (c1 + 1)
            };
            let block = copy_range(&self.codewords, start, end);
            let ecc = reed_solomon_ecc(block.as_slice(), ecc_per_block);
            assert(start == block_start(props, k as int));
            assert(end == block_start(props, k + 1));
            assert(block@ == data_blocks(cw, props)[k as int]);
            assert(ecc@ == ecc_blocks(cw, props)[k as int]);
            let ghost dv = data_blocks_v@;
            let ghost ev = ecc_blocks_v@;
            let ghost bv = block@;
            let ghost eb = ecc@;
            assert(views(dv).len() == dv.len());
            assert(views(ev).len() == ev.len());
            assert(dv.len() == k);
            data_blocks_v.push(block);
            ecc_blocks_v.push(ecc);
            proof {
                assert(data_blocks_v@ == dv.push(block));
                assert(data_blocks_v@[k as int]@ == bv);
                assert(views(data_blocks_v@) =~= views(dv).push(bv));
                assert(ecc_blocks_v@ == ev.push(ecc));
                assert(views(ecc_blocks_v@) =~= views(ev).push(eb));
            }
            k += 1;
        }
        assert(data_blocks(cw, props).take(props.block_count as int) =~= data_blocks(cw, props));
        assert(ecc_blocks(cw, props).take(props.block_count as int) =~= ecc_blocks(cw, props));
        let width = if group_two.blocks > 0 {
            c1 + 1
        } else {
            c1
        };
        let mut data_section = interleave_blocks(&data_blocks_v, width);
        let mut ecc_section = interleave_blocks(&ecc_blocks_v, ecc_per_block);
        data_section.append(&mut ecc_section);
        proof {
            lemma_final_codewords_len(cw, props);
        }
        self.codewords = data_section;
    }
}

/// Entries that the first `j` blocks have within their first `w` positions.
pub open spec fn clipped_total(blocks: Seq<Seq<u8>>, j: int, w: int) -> int
    decreases j,
{
    if j <= 0 {
        0
    } else {
        clipped_total(blocks, j - 1, w) + if blocks[j - 1].len() < w { blocks[j - 1].len() as int } else { w }
    }
}

proof fn lemma_clipped_step(blocks: Seq<Seq<u8>>, j: int, w: int)
    requires
        0 <= j <= blocks.len(),
        1 <= w,
    ensures
        clipped_total(blocks, j, w) == clipped_total(blocks, j, w - 1) + column(blocks, w - 1, j).len(),
    decreases j,
{
    if j > 0 {
        lemma_clipped_step(blocks, j - 1, w);
    }
}

proof fn lemma_interleave_total(blocks: Seq<Seq<u8>>, w: int)
    requires
        0 <= w,
    ensures
        interleave(blocks, w).len() == clipped_total(blocks, blocks.len() as int, w),
    decreases w,
{
    if w > 0 {
        lemma_interleave_total(blocks, w - 1);
        lemma_clipped_step(blocks, blocks.len() as int, w);
    } else {
        lemma_clipped_zero(blocks, blocks.len() as int);
    }
}

proof fn lemma_clipped_zero(blocks: Seq<Seq<u8>>, j: int)
    ensures
        clipped_total(blocks, j, 0) == 0,
    decreases j,
{
    if j > 0 {
        lemma_clipped_zero(blocks, j - 1);
    }
}

proof fn lemma_data_blocks_total(cw: Seq<u8>, props: CodeWord, j: int, w: int)
    requires
        props.wf(),
        cw.len() == props.data_len(),
        0 <= j <= props.block_count,
        w == if props.data_len() % props.block_count as int == 0 {
            props.data_len() / props.block_count as int
        } else {
            props.data_len() / props.block_count as int + 1
        },
    ensures
        clipped_total(data_blocks(cw, props), j, w) == block_start(props, j),
    decreases j,
{
    if j > 0 {
        lemma_data_blocks_total(cw, props, j - 1, w);
        lemma_block_bounds(props, j - 1);
        let b = props.block_count as int;
        let d = props.data_len();
        vstd::arithmetic::div_mod::lemma_fundamental_div_mod(d, b);
        if d % b == 0 {
            let c1 = d / b;
            assert(j * c1 == (j - 1) * c1 + c1) by (nonlinear_arith);
            assert(block_start(props, j) - block_start(props, j - 1) == d / b);
        }
    } else {
        assert(block_start(props, 0) == 0);
    }
}

proof fn lemma_ecc_blocks_total(cw: Seq<u8>, props: CodeWord, j: int)
    requires
        props.wf(),
        0 <= j <= props.block_count,
        forall|k: int| 0 <= k < props.block_count ==> (#[trigger] ecc_blocks(cw, props)[k]).len() == props.ecc_per_block(),
    ensures
        clipped_total(ecc_blocks(cw, props), j, props.ecc_per_block()) == j * props.ecc_per_block(),
    decreases j,
{
    if j > 0 {
        lemma_ecc_blocks_total(cw, props, j - 1);
        assert(ecc_blocks(cw, props)[j - 1].len() == props.ecc_per_block());
        assert(j * props.ecc_per_block() == (j - 1) * props.ecc_per_block() + props.ecc_per_block())
            by (nonlinear_arith);
    } else {
        assert(j * props.ecc_per_block() == 0) by (nonlinear_arith) requires j == 0;
    }
}

/// With parity blocks of the prescribed length, the interleaved sequence
/// holds every data and error-correction codeword: its length is the total
/// capacity.
pub proof fn lemma_final_codewords_len(cw: Seq<u8>, props: CodeWord)
    requires
        props.wf(),
        cw.len() == props.data_len(),
        forall|k: int| 0 <= k < props.block_count ==> (#[trigger] ecc_blocks(cw, props)[k]).len() == props.ecc_per_block(),
    ensures
        final_codewords_spec(cw, props).len() == props.capacity,
{
    let d = props.data_len();
    let b = props.block_count as int;
    let width = if d % b == 0 { d / b } else { d / b + 1 };
    vstd::arithmetic::div_mod::lemma_fundamental_div_mod(d, b);
    vstd::arithmetic::div_mod::lemma_fundamental_div_mod(props.ecc_codeword_count as int, b);
    assert(0 <= d / b) by (nonlinear_arith) requires 0 <= d, 0 < b;
    lemma_interleave_total(data_blocks(cw, props), width);
    lemma_data_blocks_total(cw, props, b, width);
    lemma_block_bounds(props, b - 1);
    lemma_interleave_total(ecc_blocks(cw, props), props.ecc_per_block());
    lemma_ecc_blocks_total(cw, props, b);
    assert(b * props.ecc_per_block() == props.ecc_codeword_count);
}

} // verus!
