//! Keys by which host buffers are found again on the device.

use vstd::prelude::*;

verus! {

/// What tells one host buffer from another: where it is, how long it is, and the eight
/// bytes at either end.
#[derive(Clone, Copy, Debug, Eq, Hash, PartialEq, Structural)]
pub struct DeviceBytesKey {
    pub ptr: usize,
    pub len: usize,
    pub head: u64,
    pub tail: u64,
}

/// What tells one state buffer from another. Its contents change, so they are no part of
/// the key.
#[derive(Clone, Copy, Debug, Eq, Hash, PartialEq, Structural)]
pub struct DeviceStateKey {
    pub ptr: usize,
    pub len: usize,
}

/// The number that the bytes spell, lowest byte first.
pub open spec fn le_value(bytes: Seq<u8>) -> nat
    decreases bytes.len(),
{
    if bytes.len() == 0 {
        0
    } else {
        bytes[0] as nat + 256 * le_value(bytes.skip(1))
    }
}

/// The first eight bytes, or all of them.
pub open spec fn head_bytes(bytes: Seq<u8>) -> Seq<u8> {
    if bytes.len() <= 8 {
        bytes
    } else {
        bytes.take(8)
    }
}

/// The last eight bytes, or all of them.
pub open spec fn tail_bytes(bytes: Seq<u8>) -> Seq<u8> {
    if bytes.len() <= 8 {
        bytes
    } else {
        bytes.skip(bytes.len() - 8)
    }
}

/// The key of a buffer at an address.
pub open spec fn bytes_key(ptr: usize, bytes: Seq<u8>) -> DeviceBytesKey {
    DeviceBytesKey {
        ptr,
        len: bytes.len() as usize,
        head: le_value(head_bytes(bytes)) as u64,
        tail: le_value(tail_bytes(bytes)) as u64,
    }
}

/// `le_value` of a range of at most eight bytes fits 64 bits.
pub proof fn lemma_le_value_bound(bytes: Seq<u8>)
    ensures
        bytes.len() <= 8 ==> le_value(bytes) <= u64::MAX,
        bytes.len() <= 7 ==> le_value(bytes) < 0x1_00_0000_0000_0000,
        bytes.len() <= 6 ==> le_value(bytes) < 0x1_0000_0000_0000,
        bytes.len() <= 5 ==> le_value(bytes) < 0x1_00_0000_0000,
        bytes.len() <= 4 ==> le_value(bytes) < 0x1_0000_0000,
        bytes.len() <= 3 ==> le_value(bytes) < 0x1_00_0000,
        bytes.len() <= 2 ==> le_value(bytes) < 0x1_0000,
        bytes.len() <= 1 ==> le_value(bytes) < 0x1_00,
    decreases bytes.len(),
{
    if bytes.len() > 0 {
        lemma_le_value_bound(bytes.skip(1));
    }
}

fn read_u64(bytes: &[u8], from: usize, to: usize) -> (r: u64)
    requires
        from <= to <= bytes@.len(),
        to - from <= 8,
    ensures
        r == le_value(bytes@.subrange(from as int, to as int)),
{
    let mut out: u64 = 0;
    let mut i: usize = to;
    while i > from
        invariant
            from <= i <= to <= bytes@.len(),
            to - from <= 8,
            out == le_value(bytes@.subrange(i as int, to as int)),
        decreases i,
    {
        i = i - 1;
        proof {
            let part = bytes@.subrange(i as int, to as int);
            assert(part.skip(1) =~= bytes@.subrange(i + 1, to as int));
            lemma_le_value_bound(part);
        }
        out = 256 * out + bytes[i] as u64;
    }
    out
}

/// The address of a buffer, by `<[u8]>::as_ptr`. It depends on the machine and on the
/// allocator: nothing is claimed of it.
#[verifier::external_body]
fn address(bytes: &[u8]) -> (ptr: usize) {
    bytes.as_ptr() as usize
}

impl DeviceBytesKey {
    /// The key of a buffer. Where the buffer lies is for the machine to say; the rest of
    /// the key is the buffer's.
    pub fn from_slice(bytes: &[u8]) -> (k: DeviceBytesKey)
        ensures
            k == bytes_key(k.ptr, bytes@),
            k.len == bytes@.len(),
    {
        let ptr: usize = address(bytes);
        DeviceBytesKey::at(ptr, bytes)
    }

    /// The key of a buffer at a known address.
    pub fn at(ptr: usize, bytes: &[u8]) -> (k: DeviceBytesKey)
        ensures
            k == bytes_key(ptr, bytes@),
            k.ptr == ptr && k.len == bytes@.len(),
            bytes@.len() <= 8 ==> k.head == k.tail,
    {
        let len: usize = bytes.len();
        let head_end: usize = if len <= 8 {
            len
        } else {
            8
        };
        let tail_start: usize = if len <= 8 {
            0
        } else {
            len - 8
        };
        proof {
            assert(bytes@.subrange(0, head_end as int) =~= head_bytes(bytes@));
            assert(bytes@.subrange(tail_start as int, len as int) =~= tail_bytes(bytes@));
        }
        DeviceBytesKey {
            ptr,
            len,
            head: read_u64(bytes, 0, head_end),
            tail: read_u64(bytes, tail_start, len),
        }
    }
}

/// Two buffers at one address have the same key if and only if they have the same length
/// and agree in the eight bytes at either end. Up to eight bytes that is all of them.
pub proof fn law_same_key_same_ends(ptr: usize, a: Seq<u8>, b: Seq<u8>)
    requires
        a.len() <= usize::MAX,
        b.len() <= usize::MAX,
    ensures
        bytes_key(ptr, a) == bytes_key(ptr, b) <==> (a.len() == b.len() && head_bytes(a)
            == head_bytes(b) && tail_bytes(a) == tail_bytes(b)),
        a.len() <= 8 ==> (bytes_key(ptr, a) == bytes_key(ptr, b) <==> a == b),
{
    lemma_le_value_bound(head_bytes(a));
    lemma_le_value_bound(head_bytes(b));
    lemma_le_value_bound(tail_bytes(a));
    lemma_le_value_bound(tail_bytes(b));
    if bytes_key(ptr, a) == bytes_key(ptr, b) {
        lemma_le_value_injective(head_bytes(a), head_bytes(b));
        lemma_le_value_injective(tail_bytes(a), tail_bytes(b));
    }
}

proof fn lemma_le_value_injective(a: Seq<u8>, b: Seq<u8>)
    requires
        a.len() == b.len(),
        le_value(a) == le_value(b),
    ensures
        a == b,
    decreases a.len(),
{
    if a.len() > 0 {
        lemma_le_value_injective(a.skip(1), b.skip(1));
        assert forall|i: int| 0 <= i < a.len() implies a[i] == b[i] by {
            if i > 0 {
                assert(a.skip(1)[i - 1] == b.skip(1)[i - 1]);
            }
        }
    }
    assert(a =~= b);
}

/// Bytes in order of rising weight: the first is the number's remainder by 256.
pub proof fn law_low_byte_first(bytes: Seq<u8>)
    requires
        bytes.len() > 0,
    ensures
        le_value(bytes) % 256 == bytes[0],
        le_value(bytes) / 256 == le_value(bytes.skip(1)),
        le_value(Seq::<u8>::empty()) == 0,
{
}

/// The head is the front of a buffer and the tail its end: up to eight bytes of each.
pub proof fn law_ends(bytes: Seq<u8>, i: int)
    ensures
        head_bytes(bytes).len() == tail_bytes(bytes).len(),
        head_bytes(bytes).len() == (if bytes.len() < 8 {
            bytes.len()
        } else {
            8
        }),
        0 <= i < head_bytes(bytes).len() ==> head_bytes(bytes)[i] == bytes[i],
        0 <= i < tail_bytes(bytes).len() ==> tail_bytes(bytes)[i] == bytes[bytes.len()
            - tail_bytes(bytes).len() + i],
{
}

/// Buffers at different addresses, or of different lengths, have different keys.
pub proof fn law_address_and_length_count(p: usize, q: usize, a: Seq<u8>, b: Seq<u8>)
    requires
        a.len() <= usize::MAX,
        b.len() <= usize::MAX,
    ensures
        p != q || a.len() != b.len() ==> bytes_key(p, a) != bytes_key(q, b),
        bytes_key(p, a).ptr == p,
        bytes_key(p, a).len == a.len(),
{
}

} // verus!
