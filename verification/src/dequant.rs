//! Expansion of packed weights on the host.
//!
//! An expanded element is its scale times its code, less its minimum. Scale and minimum
//! are half-precision bit patterns.

use vstd::prelude::*;

use crate::error::CudaInitError;
use crate::text::{dec, push_dec};

verus! {

/// Elements and bytes of a block: eight scales, eight minima, and the codes of eight
/// groups of elements.
pub const Q4_KF_BLOCK_ELEMS: usize = 256;

pub const Q4_KF_BLOCK_BYTES: usize = 160;

/// What an element of a weight is made of.
#[derive(Clone, Copy, Debug, PartialEq, Eq, Structural)]
pub struct PackedElem {
    pub scale: u16,
    pub min: u16,
    pub code: u8,
}

/// The little-endian half word at `at`.
pub open spec fn half_word(data: Seq<u8>, at: int) -> int {
    data[at] + 256 * data[at + 1]
}

/// Element `i` of a weight. Two groups share each run of 32 bytes: the even one has the
/// low halves, the odd one the high halves.
pub open spec fn q4_kf_elem(data: Seq<u8>, i: int) -> PackedElem {
    let block = 160 * (i / 256);
    let group = (i % 256) / 32;
    let byte = data[block + 32 + 32 * (group / 2) + i % 32];
    PackedElem {
        scale: half_word(data, block + 2 * group) as u16,
        min: half_word(data, block + 16 + 2 * group) as u16,
        code: if group % 2 == 0 {
            byte % 16
        } else {
            byte / 16
        },
    }
}

/// Each block is expanded from its own bytes.
pub proof fn law_blocks_stand_alone(data: Seq<u8>, i: int)
    requires
        0 <= i,
        160 * (i / 256) + 160 <= data.len(),
    ensures
        q4_kf_elem(data, i) == q4_kf_elem(
            data.subrange(160 * (i / 256), 160 * (i / 256) + 160),
            i % 256,
        ),
{
    let block = data.subrange(160 * (i / 256), 160 * (i / 256) + 160);
    let w = i % 256;
    assert(w / 256 == 0 && w % 256 == w && w % 32 == i % 32);
}

fn half_at(data: &[u8], at: usize) -> (r: u16)
    requires
        at + 1 < data@.len(),
    ensures
        r == half_word(data@, at as int),
        r == data@[at as int] + 256 * data@[at + 1],
{
    data[at] as u16 + 256 * (data[at + 1] as u16)
}

fn code_of(byte: u8, high: bool) -> (r: u8)
    ensures
        r == if high {
            byte / 16
        } else {
            byte % 16
        },
{
    if high {
        assert((byte >> 4) & 0x0f == byte / 16) by (bit_vector);
        (byte >> 4) & 0x0f
    } else {
        assert(byte & 0x0f == byte % 16) by (bit_vector);
        byte & 0x0f
    }
}

/// The complaint about a weight's size.
pub open spec fn q4_kf_complaint(data_len: int, n_elements: usize) -> Option<Seq<char>> {
    let expected = 160 * (n_elements / 256);
    if n_elements % 256 != 0 {
        Some(
            "dequant_q4_kf: n_elements "@ + dec(n_elements as nat) + " not multiple of 256"@,
        )
    } else if data_len < expected {
        Some(
            "dequant_q4_kf: short buffer: "@ + dec(data_len as nat) + " < "@ + dec(expected as nat),
        )
    } else {
        None
    }
}

/// Takes the first `n_elements` elements of a weight apart.
pub fn dequant_q4_kf(data: &[u8], n_elements: usize) -> (r: Result<Vec<PackedElem>, CudaInitError>)
    ensures
        r is Ok == q4_kf_complaint(data@.len() as int, n_elements) is None,
        r matches Ok(v) ==> v@ == Seq::new(n_elements as nat, |i: int| q4_kf_elem(data@, i)),
        r matches Err(e) ==> q4_kf_complaint(data@.len() as int, n_elements) matches Some(t)
            && e.says(t),
{
    if n_elements % Q4_KF_BLOCK_ELEMS != 0 {
        let mut s: String = "dequant_q4_kf: n_elements ".to_owned();
        push_dec(&mut s, n_elements as u64);
        s.append(" not multiple of 256");
        return Err(CudaInitError::DriverMissing(s));
    }
    let n_blocks: usize = n_elements / Q4_KF_BLOCK_ELEMS;
    let expected: usize = n_blocks * Q4_KF_BLOCK_BYTES;
    let data_len: usize = data.len();
    if data_len < expected {
        let mut s: String = "dequant_q4_kf: short buffer: ".to_owned();
        push_dec(&mut s, data_len as u64);
        s.append(" < ");
        push_dec(&mut s, expected as u64);
        return Err(CudaInitError::DriverMissing(s));
    }
    let mut out: Vec<PackedElem> = Vec::new();
    let mut i: usize = 0;
    while i < n_elements
        invariant
            i <= n_elements,
            n_elements % 256 == 0,
            n_blocks == n_elements / 256,
            160 * n_blocks <= data@.len(),
            data@.len() <= usize::MAX,
            out@.len() == i,
            forall|k: int| 0 <= k < i ==> out@[k] == q4_kf_elem(data@, k),
        decreases n_elements - i,
    {
        let sb: usize = i / Q4_KF_BLOCK_ELEMS;
        assert(sb < n_blocks);
        assert(160 * sb + 160 <= 160 * n_blocks);
        let base: usize = sb * Q4_KF_BLOCK_BYTES;
        let group: usize = (i % Q4_KF_BLOCK_ELEMS) / 32;
        let byte: u8 = data[base + 32 + 32 * (group / 2) + i % 32];
        let scale: u16 = half_at(data, base + 2 * group);
        let min: u16 = half_at(data, base + 16 + 2 * group);
        out.push(PackedElem { scale, min, code: code_of(byte, group % 2 != 0) });
        i = i + 1;
    }
    assert(out@ =~= Seq::new(n_elements as nat, |k: int| q4_kf_elem(data@, k)));
    Ok(out)
}

/// A weight that was packed is taken apart into what it was packed from. A block holds the
/// scales of its eight groups, then their minima, each with its low byte first, then the codes of
/// two groups at a time: byte `j` of a run has element `j` of the first group in its low half and
/// element `j` of the second in its high half.
pub proof fn law_packed_block_reads_back(
    data: Seq<u8>,
    block: int,
    scales: Seq<u16>,
    minima: Seq<u16>,
    codes: Seq<u8>,
    i: int,
)
    requires
        0 <= block,
        160 * block + 160 <= data.len(),
        scales.len() == 8,
        minima.len() == 8,
        codes.len() == 256,
        forall|k: int| 0 <= k < 256 ==> #[trigger] codes[k] < 16,
        forall|g: int|
            0 <= g < 8 ==> #[trigger] scales[g] == data[160 * block + 2 * g] + 256 * data[160 * block
                + 2 * g + 1],
        forall|g: int|
            0 <= g < 8 ==> #[trigger] minima[g] == data[160 * block + 16 + 2 * g] + 256 * data[160
                * block + 16 + 2 * g + 1],
        forall|g: int, j: int|
            0 <= g < 4 && 0 <= j < 32 ==> #[trigger] data[160 * block + 32 + 32 * g + j] == codes[64
                * g + j] + 16 * codes[64 * g + 32 + j],
        0 <= i < 256,
    ensures
        q4_kf_elem(data, 256 * block + i) == (PackedElem {
            scale: scales[i / 32],
            min: minima[i / 32],
            code: codes[i],
        }),
{
    let at = 256 * block + i;
    assert(at / 256 == block && at % 256 == i);
    let g = i / 32;
    let j = i % 32;
    assert(at % 32 == j);
    let h = g / 2;
    assert(0 <= h < 4 && 0 <= j < 32);
    assert(scales[g] == data[160 * block + 2 * g] + 256 * data[160 * block + 2 * g + 1]);
    assert(minima[g] == data[160 * block + 16 + 2 * g] + 256 * data[160 * block + 16 + 2 * g + 1]);
    assert(data[160 * block + 32 + 32 * h + j] == codes[64 * h + j] + 16 * codes[64 * h + 32 + j]);
    let low = codes[64 * h + j];
    let high = codes[64 * h + 32 + j];
    assert(low < 16 && high < 16);
    if g % 2 == 0 {
        assert(i == 64 * h + j);
    } else {
        assert(i == 64 * h + 32 + j);
    }
}

/// A weight is taken apart just where its elements fill whole blocks and the bytes of those
/// blocks are there. Bytes behind them do not matter.
pub proof fn law_weight_size(data_len: int, blocks: usize, rest: usize)
    requires
        0 <= data_len,
        blocks * 256 + rest <= usize::MAX,
        rest < 256,
    ensures
        q4_kf_complaint(data_len, (blocks * 256 + rest) as usize) is None <==> rest == 0 && data_len
            >= blocks * 160,
{
}

/// What is said of a weight whose size is wrong.
pub proof fn law_weight_size_says(data_len: int, n_elements: usize)
    requires
        0 <= data_len,
    ensures
        n_elements % 256 != 0 ==> q4_kf_complaint(data_len, n_elements) == Some(
            "dequant_q4_kf: n_elements "@ + dec(n_elements as nat) + " not multiple of 256"@,
        ),
        n_elements % 256 == 0 && data_len < (n_elements / 256) * 160 ==> q4_kf_complaint(
            data_len,
            n_elements,
        ) == Some(
            "dequant_q4_kf: short buffer: "@ + dec(data_len as nat) + " < "@ + dec(
                ((n_elements / 256) * 160) as nat,
            ),
        ),
        Q4_KF_BLOCK_ELEMS == 8 * 32 && Q4_KF_BLOCK_BYTES == 8 * 2 + 8 * 2 + 8 * 16,
{
}

} // verus!
