//! Big-endian integers and byte-string helpers shared by the wire formats.

use vstd::prelude::*;

verus! {

/// 256 to the power of `n`: one more than the largest number that `n` bytes hold.
pub open spec fn pow256(n: nat) -> nat
    decreases n,
{
    if n == 0 {
        1
    } else {
        256 * pow256((n - 1) as nat)
    }
}

/// The number that `bytes` denote, most significant byte first.
pub open spec fn be_value(bytes: Seq<u8>) -> nat
    decreases bytes.len(),
{
    if bytes.len() == 0 {
        0
    } else {
        256 * be_value(bytes.drop_last()) + bytes.last() as nat
    }
}

/// The `len` low-order bytes of `value`, most significant byte first.
pub open spec fn be_bytes(value: nat, len: nat) -> Seq<u8>
    decreases len,
{
    if len == 0 {
        Seq::empty()
    } else {
        be_bytes(value / 256, (len - 1) as nat).push((value % 256) as u8)
    }
}

/// `len` bytes are written for a width of `len`.
pub broadcast proof fn lemma_be_bytes_len(value: nat, len: nat)
    ensures
        #[trigger] be_bytes(value, len).len() == len,
    decreases len,
{
    if len > 0 {
        lemma_be_bytes_len(value / 256, (len - 1) as nat);
    }
}

/// A byte string denotes a number below `256` to the power of its length.
pub proof fn lemma_be_value_bound(bytes: Seq<u8>)
    ensures
        be_value(bytes) < pow256(bytes.len()),
    decreases bytes.len(),
{
    if bytes.len() > 0 {
        lemma_be_value_bound(bytes.drop_last());
    }
}

/// Reading back what was written gives the number, wherever it fits the width.
pub proof fn lemma_be_round_trip(value: nat, len: nat)
    requires
        value < pow256(len),
    ensures
        be_value(be_bytes(value, len)) == value,
    decreases len,
{
    if len > 0 {
        lemma_be_round_trip(value / 256, (len - 1) as nat);
        let bytes = be_bytes(value, len);
        assert(bytes.drop_last() =~= be_bytes(value / 256, (len - 1) as nat));
    }
}

/// Writing back what was read gives the bytes.
pub proof fn lemma_be_round_trip_bytes(bytes: Seq<u8>)
    ensures
        be_bytes(be_value(bytes), bytes.len()) == bytes,
    decreases bytes.len(),
{
    if bytes.len() > 0 {
        lemma_be_round_trip_bytes(bytes.drop_last());
        assert(bytes =~= bytes.drop_last().push(bytes.last()));
    }
}

/// The bounds of the widths in use.
pub proof fn lemma_pow256_values()
    ensures
        pow256(1) == 0x100,
        pow256(2) == 0x1_0000,
        pow256(4) == 0x1_0000_0000,
        pow256(8) == 0x1_0000_0000_0000_0000,
{
    reveal_with_fuel(pow256, 9);
}

proof fn lemma_pow256_monotonic(m: nat, n: nat)
    requires
        m <= n,
    ensures
        pow256(m) <= pow256(n),
        1 <= pow256(m),
    decreases n,
{
    if m < n {
        lemma_pow256_monotonic(m, (n - 1) as nat);
    } else if m > 0 {
        lemma_pow256_monotonic((m - 1) as nat, (m - 1) as nat);
    }
}

/// The part of `data` that starts at `start` and is `len` bytes long.
pub open spec fn field(data: Seq<u8>, start: int, len: int) -> Seq<u8> {
    data.subrange(start, start + len)
}

/// The big-endian number in `len` bytes of `data`, from `start` on.
pub open spec fn be_field(data: Seq<u8>, start: int, len: int) -> nat {
    be_value(field(data, start, len))
}

/// A number that was written at a place is read back from there.
pub proof fn lemma_field_read(data: Seq<u8>, start: int, len: nat, value: nat)
    requires
        0 <= start,
        start + len <= data.len(),
        value < pow256(len),
        field(data, start, len as int) =~= be_bytes(value, len),
    ensures
        be_field(data, start, len as int) == value,
{
    lemma_be_round_trip(value, len);
}

/// Appends the `len` low-order bytes of `value`, most significant byte first.
pub fn push_be(out: &mut Vec<u8>, value: u64, len: usize)
    ensures
        final(out)@ == old(out)@ + be_bytes(value as nat, len as nat),
    decreases len,
{
    if len > 0 {
        push_be(out, value / 256, len - 1);
        out.push((value % 256) as u8);
    }
    proof {
        assert(out@ =~= old(out)@ + be_bytes(value as nat, len as nat));
    }
}

/// Reads the big-endian number that stands in `len` bytes from `start` on.
pub fn read_be(data: &[u8], start: usize, len: usize) -> (value: u64)
    requires
        start + len <= data@.len(),
        len <= 8,
    ensures
        value == be_field(data@, start as int, len as int),
{
    let mut value: u64 = 0;
    let mut i: usize = 0;
    let total: usize = data.len();
    while i < len
        invariant
            i <= len <= 8,
            start + len <= total == data@.len(),
            value == be_value(field(data@, start as int, i as int)),
        decreases len - i,
    {
        proof {
            let next = field(data@, start as int, i + 1);
            assert(next.drop_last() =~= field(data@, start as int, i as int));
            lemma_be_value_bound(next);
            lemma_pow256_monotonic((i + 1) as nat, 8);
            lemma_pow256_values();
        }
        value = value * 256 + data[start + i] as u64;
        i += 1;
    }
    value
}

/// Reads a 16-bit big-endian number.
pub fn read_u16(data: &[u8], offset: usize) -> (value: u16)
    requires
        offset + 2 <= data@.len(),
    ensures
        value == be_field(data@, offset as int, 2),
{
    proof {
        lemma_be_value_bound(field(data@, offset as int, 2));
        lemma_pow256_values();
    }
    read_be(data, offset, 2) as u16
}

/// Reads a 32-bit big-endian number.
pub fn read_u32(data: &[u8], offset: usize) -> (value: u32)
    requires
        offset + 4 <= data@.len(),
    ensures
        value == be_field(data@, offset as int, 4),
{
    proof {
        lemma_be_value_bound(field(data@, offset as int, 4));
        lemma_pow256_values();
    }
    read_be(data, offset, 4) as u32
}

/// Reads a 64-bit big-endian number.
pub fn read_u64(data: &[u8], offset: usize) -> (value: u64)
    requires
        offset + 8 <= data@.len(),
    ensures
        value == be_field(data@, offset as int, 8),
{
    read_be(data, offset, 8)
}

/// Appends all of `tail`.
pub fn push_all(out: &mut Vec<u8>, tail: &[u8])
    ensures
        final(out)@ == old(out)@ + tail@,
{
    let mut i: usize = 0;
    while i < tail.len()
        invariant
            i <= tail@.len(),
            out@ == old(out)@ + tail@.take(i as int),
        decreases tail@.len() - i,
    {
        out.push(tail[i]);
        i += 1;
        proof {
            assert(out@ =~= old(out)@ + tail@.take(i as int));
        }
    }
    proof {
        assert(tail@.take(i as int) =~= tail@);
    }
}

/// The bytes from `start` up to, not including, `end`.
pub fn copy_range(data: &[u8], start: usize, end: usize) -> (out: Vec<u8>)
    requires
        start <= end <= data@.len(),
    ensures
        out@ == data@.subrange(start as int, end as int),
{
    let mut out: Vec<u8> = Vec::with_capacity(end - start);
    let mut i: usize = start;
    while i < end
        invariant
            start <= i <= end <= data@.len(),
            out@ == data@.subrange(start as int, i as int),
        decreases end - i,
    {
        out.push(data[i]);
        i += 1;
        proof {
            assert(out@ =~= data@.subrange(start as int, i as int));
        }
    }
    out
}

/// A copy of `data`.
pub fn copy_all(data: &[u8]) -> (out: Vec<u8>)
    ensures
        out@ == data@,
{
    let out = copy_range(data, 0, data.len());
    proof {
        assert(out@ =~= data@);
    }
    out
}

/// Whether two byte strings are the same.
pub fn bytes_equal(a: &[u8], b: &[u8]) -> (same: bool)
    ensures
        same == (a@ == b@),
{
    if a.len() != b.len() {
        return false;
    }
    let mut i: usize = 0;
    while i < a.len()
        invariant
            i <= a@.len() == b@.len(),
            forall|j: int| 0 <= j < i ==> a@[j] == b@[j],
        decreases a@.len() - i,
    {
        if a[i] != b[i] {
            return false;
        }
        i += 1;
    }
    proof {
        assert(a@ =~= b@);
    }
    true
}

/// Two byte strings of one length that denote the same number are the same.
pub proof fn lemma_be_value_injective(a: Seq<u8>, b: Seq<u8>)
    requires
        a.len() == b.len(),
        be_value(a) == be_value(b),
    ensures
        a == b,
{
    lemma_be_round_trip_bytes(a);
    lemma_be_round_trip_bytes(b);
}

/// The first byte in which two byte strings of one length differ decides which number is less.
proof fn lemma_first_difference(a: Seq<u8>, b: Seq<u8>, at: int)
    requires
        a.len() == b.len(),
        0 <= at < a.len(),
        a.take(at) == b.take(at),
        a[at] < b[at],
    ensures
        be_value(a) < be_value(b),
    decreases a.len(),
{
    let x = a.drop_last();
    let y = b.drop_last();
    if at < a.len() - 1 {
        assert(x.take(at) =~= a.take(at));
        assert(y.take(at) =~= b.take(at));
        lemma_first_difference(x, y, at);
    } else {
        assert(x =~= a.take(at));
        assert(y =~= b.take(at));
    }
}

/// Whether, of two byte strings of one length, the first comes before the second.
pub fn bytes_precede(a: &[u8], b: &[u8]) -> (before: bool)
    requires
        a@.len() == b@.len(),
    ensures
        before == (be_value(a@) < be_value(b@)),
{
    let mut i: usize = 0;
    while i < a.len()
        invariant
            i <= a@.len() == b@.len(),
            a@.take(i as int) == b@.take(i as int),
        decreases a@.len() - i,
    {
        if a[i] != b[i] {
            proof {
                if a@[i as int] < b@[i as int] {
                    lemma_first_difference(a@, b@, i as int);
                } else {
                    lemma_first_difference(b@, a@, i as int);
                }
            }
            return a[i] < b[i];
        }
        proof {
            assert(a@.take(i + 1) =~= a@.take(i as int).push(a@[i as int]));
            assert(b@.take(i + 1) =~= b@.take(i as int).push(b@[i as int]));
        }
        i += 1;
    }
    proof {
        assert(a@ =~= a@.take(i as int));
        assert(b@ =~= b@.take(i as int));
    }
    false
}

/// Thirty-two bytes as an array.
pub fn array32(data: &[u8]) -> (out: [u8; 32])
    requires
        data@.len() == 32,
    ensures
        out@ == data@,
{
    let mut out: [u8; 32] = [0u8; 32];
    let mut i: usize = 0;
    while i < 32
        invariant
            i <= 32,
            data@.len() == 32,
            forall|j: int| 0 <= j < i ==> out@[j] == data@[j],
        decreases 32 - i,
    {
        out[i] = data[i];
        i += 1;
    }
    proof {
        assert(out@ =~= data@);
    }
    out
}

/// Two lists hold the same bytes, item by item.
pub open spec fn same_contents(a: Seq<Vec<u8>>, b: Seq<Vec<u8>>) -> bool {
    a.len() == b.len() && forall|i: int| 0 <= i < a.len() ==> (#[trigger] a[i])@ == b[i]@
}

/// A copy of a list of byte strings.
pub fn copy_list(list: &Vec<Vec<u8>>) -> (out: Vec<Vec<u8>>)
    ensures
        same_contents(out@, list@),
{
    let mut out: Vec<Vec<u8>> = Vec::new();
    let mut i: usize = 0;
    while i < list.len()
        invariant
            i <= list@.len(),
            out@.len() == i,
            forall|j: int| 0 <= j < i ==> (#[trigger] out@[j])@ == list@[j]@,
        decreases list@.len() - i,
    {
        out.push(copy_all(list[i].as_slice()));
        i += 1;
    }
    out
}

/// Fields stand in the data with their most significant byte first.
pub proof fn law_fields_are_big_endian(data: Seq<u8>, start: int)
    requires
        0 <= start,
    ensures
        start + 1 <= data.len() ==> be_field(data, start, 1) == data[start],
        start + 2 <= data.len() ==> be_field(data, start, 2) == 256 * data[start] + data[start + 1],
        start + 4 <= data.len() ==> be_field(data, start, 4) == 0x100_0000 * data[start] + 0x1_0000
            * data[start + 1] + 256 * data[start + 2] + data[start + 3],
        start + 8 <= data.len() ==> be_field(data, start, 8) == 0x1_0000_0000 * be_field(
            data,
            start,
            4,
        ) + be_field(data, start + 4, 4),
{
    reveal_with_fuel(be_value, 9);
    if start + 8 <= data.len() {
        let whole = field(data, start, 8);
        let high = field(data, start, 4);
        let low = field(data, start + 4, 4);
        assert(whole.drop_last().drop_last().drop_last().drop_last() =~= high);
        assert(be_value(low) == 0x100_0000 * data[start + 4] + 0x1_0000 * data[start + 5] + 256
            * data[start + 6] + data[start + 7]);
        assert(be_value(whole) == 0x1_0000_0000 * be_value(high) + 0x100_0000 * whole[4] + 0x1_0000
            * whole[5] + 256 * whole[6] + whole[7]);
    }
}

} // verus!
