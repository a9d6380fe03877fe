//! Minimal MIDI-CI Property Exchange (PE) framing.
//!
//! Handles Set Property Inquiry (sub-ID2 = 0x36) and replies with ACK (0x37).
//! Spec reference: MIDI-CI 1.2, §7 Property Exchange.
//!
//! SysEx7 message layout:
//!   F0 7E <device_id> 0D <sub_id2> <ci_version>
//!   <source_muid: 4 bytes> <dest_muid: 4 bytes>
//!   <request_id>
//!   <header_len_lo> <header_len_hi>
//!   <header_data...>
//!   <num_chunks_lo> <num_chunks_hi>
//!   <chunk_num_lo> <chunk_num_hi>
//!   <body_len_lo> <body_len_hi>
//!   <body_data...>
//!   F7
//!
//! Bodies are carried in mcoded7, the 8-bit-to-7-bit coding of MIDI-CI:
//! every group of up to 7 data bytes becomes a byte of high bits followed by
//! the group's bytes with their high bit cleared.
use vstd::prelude::*;
use crate::bounded::{bytes32, bytes32_new, bytes32_extend, bytes350, bytes350_new, bytes350_extend};

verus! {

pub const UNIVERSAL_SYSEX: u8 = 0x7E;
pub const SUB_ID1_MIDI_CI: u8 = 0x0D;

/// Sub-ID2: Inquiry Get Property Data (MIDI-CI 1.2)
pub const PE_GET_INQUIRY: u8 = 0x34;
/// Sub-ID2: Reply to Get Property Data
pub const PE_GET_REPLY: u8 = 0x35;
/// Sub-ID2: Inquiry Set Property Data (MIDI-CI 1.2)
pub const PE_SET_INQUIRY: u8 = 0x36;
/// Sub-ID2: Reply to Set Property Data
pub const PE_SET_REPLY: u8 = 0x37;

pub const CI_VERSION: u8 = 0x02;

/// A universal SysEx MIDI-CI message, long enough to hold the fixed fields.
pub open spec fn ci_message(s: Seq<u8>) -> bool {
    s.len() >= 15 && s[0] == 0xF0 && s[1] == UNIVERSAL_SYSEX && s[3] == SUB_ID1_MIDI_CI
}

/// A MIDI-CI message of the given sub-ID2.
pub open spec fn ci_kind(s: Seq<u8>, sub_id2: u8) -> bool {
    ci_message(s) && s[4] == sub_id2
}

/// A 14-bit length field sent low 7 bits first (the bytes are combined as read).
pub open spec fn field14(lo: u8, hi: u8) -> usize {
    (lo as usize) | ((hi as usize) << 7usize)
}

/// Offset of the header data: it follows the header length field.
pub open spec fn header_start() -> int {
    17
}

/// Resource identifier of an inquiry: the first header byte, or 0 when the
/// header is empty or missing.
pub open spec fn resource_of(s: Seq<u8>) -> u8 {
    if field14(s[15], s[16]) > 0 && header_start() < s.len() {
        s[header_start()]
    } else {
        0
    }
}

/// The body of a PE message (whatever its kind): skip the header and the two
/// chunk fields, read the body length, and take that many bytes; none when
/// the message ends too early.
pub open spec fn body_of(s: Seq<u8>) -> Option<Seq<u8>> {
    if s.len() < header_start() {
        None
    } else {
        let p = header_start() + field14(s[15], s[16]);
        if p + 6 > s.len() {
            None
        } else {
            let n = field14(s[p + 4], s[p + 5]);
            if p + 6 + n > s.len() {
                None
            } else {
                Some(s.subrange(p + 6, p + 6 + n))
            }
        }
    }
}

/// Resource and body of a Set Property Inquiry.
pub open spec fn set_property_payload(s: Seq<u8>) -> Option<(u8, Seq<u8>)> {
    if !ci_kind(s, PE_SET_INQUIRY) {
        None
    } else {
        match body_of(s) {
            Some(body) => Some((resource_of(s), body)),
            None => None,
        }
    }
}

/// Body of a Get Property Reply.
pub open spec fn get_reply_body(s: Seq<u8>) -> Option<Seq<u8>> {
    if !ci_kind(s, PE_GET_REPLY) {
        None
    } else {
        body_of(s)
    }
}

/// Resource of a Get Property Inquiry.
pub open spec fn get_resource(s: Seq<u8>) -> Option<u8> {
    if !ci_kind(s, PE_GET_INQUIRY) || s.len() < header_start() {
        None
    } else {
        Some(resource_of(s))
    }
}

/// The fixed fields of an outgoing message: SysEx start, universal SysEx to
/// the function block, MIDI-CI, the sub-ID2, the CI version, both MUIDs and
/// the request id.
pub open spec fn ci_header(sub_id2: u8, source: Seq<u8>, dest: Seq<u8>, req_id: u8) -> Seq<u8> {
    seq![0xF0u8, UNIVERSAL_SYSEX, 0x7Fu8, SUB_ID1_MIDI_CI, sub_id2, CI_VERSION] + source + dest
        + seq![req_id]
}

/// A one-byte header holding the resource, then one chunk numbered 1.
pub open spec fn resource_header(resource: u8) -> Seq<u8> {
    seq![0x01u8, 0x00u8, resource, 0x01u8, 0x00u8, 0x01u8, 0x00u8]
}

/// The body length field and the mcoded7 body.
pub open spec fn body_field(body: Seq<u8>) -> Seq<u8> {
    let enc = mcoded7_encode(body);
    let n = enc.len() as usize;
    seq![(n & 0x7F) as u8, ((n >> 7usize) & 0x7F) as u8] + enc
}

/// Bytes of a Set Property Reply (an acknowledgement with no header and no body).
pub open spec fn set_reply_bytes(device: Seq<u8>, dest: Seq<u8>, req_id: u8) -> Seq<u8> {
    ci_header(PE_SET_REPLY, device, dest, req_id) + seq![
        0x00u8,
        0x00u8,
        0x01u8,
        0x00u8,
        0x01u8,
        0x00u8,
        0x00u8,
        0x00u8,
        0xF7u8,
    ]
}

/// Bytes of a Set Property Inquiry.
pub open spec fn set_inquiry_bytes(
    source: Seq<u8>,
    dest: Seq<u8>,
    req_id: u8,
    resource: u8,
    body: Seq<u8>,
) -> Seq<u8> {
    ci_header(PE_SET_INQUIRY, source, dest, req_id) + resource_header(resource) + body_field(body)
        + seq![0xF7u8]
}

/// Bytes of a Get Property Inquiry (no body).
pub open spec fn get_inquiry_bytes(source: Seq<u8>, dest: Seq<u8>, req_id: u8, resource: u8) -> Seq<
    u8,
> {
    ci_header(PE_GET_INQUIRY, source, dest, req_id) + resource_header(resource) + seq![
        0x00u8,
        0x00u8,
        0xF7u8,
    ]
}

/// Bytes of a Get Property Reply.
pub open spec fn get_reply_bytes(
    device: Seq<u8>,
    dest: Seq<u8>,
    req_id: u8,
    resource: u8,
    body: Seq<u8>,
) -> Seq<u8> {
    ci_header(PE_GET_REPLY, device, dest, req_id) + resource_header(resource) + body_field(body)
        + seq![0xF7u8]
}

/// The flag for the high bit of the byte at position `k` of a group.
pub open spec fn bit(k: int) -> u8 {
    (1u8 << (k as u8)) as u8
}

/// High bits of a group: bit `k` is set iff byte `k` of the group has its
/// high bit set.
pub open spec fn high_bits(group: Seq<u8>) -> u8
    decreases group.len(),
{
    if group.len() == 0 {
        0
    } else {
        high_bits(group.drop_last()) | (if group.last() & 0x80 != 0 {
            bit(group.len() - 1)
        } else {
            0
        })
    }
}

/// The encoding of `data`, group by group.
pub open spec fn mcoded7_encode(data: Seq<u8>) -> Seq<u8>
    decreases data.len(),
{
    if data.len() == 0 {
        Seq::empty()
    } else if data.len() <= 7 {
        seq![high_bits(data)] + data.map_values(|b: u8| b & 0x7F)
    } else {
        let group = data.take(7);
        seq![high_bits(group)] + group.map_values(|b: u8| b & 0x7F) + mcoded7_encode(data.skip(7))
    }
}

/// The data bytes of a group of encoded bytes (a high-bits byte and up to 7
/// bytes), with the high bits put back.
pub open spec fn decode_group(encoded: Seq<u8>) -> Seq<u8> {
    Seq::new(
        (encoded.len() - 1) as nat,
        |j: int|
            encoded[j + 1] | (if encoded[0] & bit(j) != 0 {
                0x80u8
            } else {
                0u8
            }),
    )
}

/// The decoding of `encoded`, group by group: a group is a high-bits byte and
/// the (up to 7) bytes that follow it.
pub open spec fn mcoded7_decode(encoded: Seq<u8>) -> Seq<u8>
    decreases encoded.len(),
{
    if encoded.len() == 0 {
        Seq::empty()
    } else if encoded.len() <= 8 {
        decode_group(encoded)
    } else {
        decode_group(encoded.take(8)) + mcoded7_decode(encoded.skip(8))
    }
}

/// Length of the encoding of `n` bytes: one high-bits byte per started group of 7.
pub open spec fn encoded_len(n: int) -> int {
    n + (n + 6) / 7
}

/// Length of the decoding of `n` encoded bytes.
pub open spec fn decoded_len(n: int) -> int {
    (n / 8) * 7 + (if n % 8 > 0 {
        n % 8 - 1
    } else {
        0
    })
}

proof fn lemma_bit_facts(x: u8, k: u8, j: u8, set: bool)
    requires
        k < 7,
        j <= k,
        x < (1u8 << k),
    ensures
        ({
            let y = x | (if set { (1u8 << k) } else { 0u8 });
            &&& y < (1u8 << ((k + 1) as u8))
            &&& j < k ==> ((y & (1u8 << j)) != 0 <==> (x & (1u8 << j)) != 0)
            &&& j == k ==> ((y & (1u8 << j)) != 0 <==> set)
        }),
{
    if set {
        assert({
            let y = x | (1u8 << k);
            &&& y < (1u8 << ((k + 1) as u8))
            &&& j < k ==> ((y & (1u8 << j)) != 0 <==> (x & (1u8 << j)) != 0)
            &&& j == k ==> ((y & (1u8 << j)) != 0)
        }) by (bit_vector)
            requires
                k < 7,
                j <= k,
                x < (1u8 << k),
        ;
    } else {
        assert({
            let y = x | 0u8;
            &&& y < (1u8 << ((k + 1) as u8))
            &&& j < k ==> ((y & (1u8 << j)) != 0 <==> (x & (1u8 << j)) != 0)
            &&& j == k ==> ((y & (1u8 << j)) == 0)
        }) by (bit_vector)
            requires
                k < 7,
                j <= k,
                x < (1u8 << k),
        ;
    }
}

/// Bit `j` of the high-bits byte of a group is the high bit of byte `j`, and
/// no bit at or above the group's length is set.
pub proof fn lemma_high_bits(group: Seq<u8>)
    requires
        group.len() <= 7,
    ensures
        high_bits(group) < (1u8 << (group.len() as u8)),
        forall|j: int|
            0 <= j < group.len() ==> ((#[trigger] (high_bits(group) & bit(j))) != 0 <==> group[j]
                & 0x80 != 0),
    decreases group.len(),
{
    if group.len() == 0 {
        assert(0u8 < (1u8 << 0u8)) by (bit_vector);
    } else {
        let rest = group.drop_last();
        lemma_high_bits(rest);
        let k = (group.len() - 1) as u8;
        let set = group.last() & 0x80 != 0;
        lemma_bit_facts(high_bits(rest), k, k, set);
        assert forall|j: int| 0 <= j < group.len() implies ((#[trigger] (high_bits(group) & bit(j)))
            != 0 <==> group[j] & 0x80 != 0) by {
            lemma_bit_facts(high_bits(rest), k, j as u8, set);
            if j < k {
                assert(rest[j] == group[j]);
            }
        }
    }
}

proof fn lemma_restore_byte(b: u8, flag: bool)
    requires
        flag <==> b & 0x80 != 0,
    ensures
        ((b & 0x7F) | (if flag {
            0x80u8
        } else {
            0u8
        })) == b,
        b & 0x7F < 0x80,
{
    if flag {
        assert(b & 0x80 != 0 ==> ((b & 0x7F) | 0x80u8) == b && b & 0x7F < 0x80) by (bit_vector);
    } else {
        assert(b & 0x80 == 0 ==> ((b & 0x7F) | 0u8) == b && b & 0x7F < 0x80) by (bit_vector);
    }
}

/// One group: decoding its encoding gives the group back.
proof fn lemma_group_roundtrip(group: Seq<u8>)
    requires
        1 <= group.len() <= 7,
    ensures
        decode_group(seq![high_bits(group)] + group.map_values(|b: u8| b & 0x7F)) == group,
{
    let e = seq![high_bits(group)] + group.map_values(|b: u8| b & 0x7F);
    lemma_high_bits(group);
    assert forall|j: int| 0 <= j < group.len() implies #[trigger] decode_group(e)[j] == group[j] by {
        assert(e[j + 1] == group[j] & 0x7F);
        assert((high_bits(group) & bit(j)) != 0 <==> group[j] & 0x80 != 0);
        lemma_restore_byte(group[j], group[j] & 0x80 != 0);
    }
    assert(decode_group(e) =~= group);
}

/// Decoding undoes encoding.
pub proof fn lemma_mcoded7_roundtrip(data: Seq<u8>)
    ensures
        mcoded7_decode(mcoded7_encode(data)) == data,
    decreases data.len(),
{
    if data.len() == 0 {
    } else if data.len() <= 7 {
        lemma_group_roundtrip(data);
    } else {
        let group = data.take(7);
        let head = seq![high_bits(group)] + group.map_values(|b: u8| b & 0x7F);
        let e = mcoded7_encode(data);
        lemma_mcoded7_roundtrip(data.skip(7));
        lemma_mcoded7_len(data.skip(7));
        assert(e == head + mcoded7_encode(data.skip(7)));
        assert(head.len() == 8);
        assert(e.take(8) =~= head);
        assert(e.skip(8) =~= mcoded7_encode(data.skip(7)));
        lemma_group_roundtrip(group);
        assert(group + data.skip(7) =~= data);
    }
}

/// The decoding of `n` encoded bytes has `decoded_len(n)` bytes.
pub proof fn lemma_mcoded7_decode_len(encoded: Seq<u8>)
    ensures
        mcoded7_decode(encoded).len() == decoded_len(encoded.len() as int),
    decreases encoded.len(),
{
    if encoded.len() > 8 {
        lemma_mcoded7_decode_len(encoded.skip(8));
    }
}

/// Decoding the encoding of `n` bytes gives back exactly `n` bytes:
/// `decode_mcoded7` reports as many bytes as `encode_mcoded7` was given.
pub proof fn lemma_mcoded7_lengths(data: Seq<u8>)
    ensures
        decoded_len(encoded_len(data.len() as int)) == data.len(),
{
    lemma_mcoded7_roundtrip(data);
    lemma_mcoded7_len(data);
    lemma_mcoded7_decode_len(mcoded7_encode(data));
}

/// The encoding of `n` bytes has `encoded_len(n)` bytes.
pub proof fn lemma_mcoded7_len(data: Seq<u8>)
    ensures
        mcoded7_encode(data).len() == encoded_len(data.len() as int),
    decreases data.len(),
{
    if data.len() > 7 {
        lemma_mcoded7_len(data.skip(7));
    }
}

/// Every encoded byte is 7-bit safe.
pub proof fn lemma_mcoded7_seven_bit(data: Seq<u8>)
    ensures
        forall|i: int| 0 <= i < mcoded7_encode(data).len() ==> #[trigger] mcoded7_encode(data)[i] < 0x80,
    decreases data.len(),
{
    if data.len() > 0 {
        let group = if data.len() <= 7 {
            data
        } else {
            data.take(7)
        };
        lemma_high_bits(group);
        assert((1u8 << (group.len() as u8)) <= 0x80) by {
            let n = group.len() as u8;
            assert(n <= 7 ==> (1u8 << n) <= 0x80) by (bit_vector);
        }
        assert forall|j: int| 0 <= j < group.len() implies (#[trigger] group[j]) & 0x7F < 0x80 by {
            lemma_restore_byte(group[j], group[j] & 0x80 != 0);
        }
        if data.len() > 7 {
            lemma_mcoded7_seven_bit(data.skip(7));
        }
        let e = mcoded7_encode(data);
        assert forall|i: int| 0 <= i < e.len() implies #[trigger] e[i] < 0x80 by {
            if i > group.len() {
                assert(e[i] == mcoded7_encode(data.skip(7))[i - 8]);
            }
        }
    }
}

/// Encode data using mcoded7 (MIDI-CI spec): every 7 input bytes → 8 output bytes.
/// The first byte of each group carries the high bits (bit 7) of the following 7 bytes.
/// Returns the number of bytes written to `out`.
pub fn encode_mcoded7(data: &[u8], out: &mut [u8]) -> (written: usize)
    requires
        old(out)@.len() >= encoded_len(data@.len() as int),
    ensures
        written == encoded_len(data@.len() as int),
        final(out)@.len() == old(out)@.len(),
        final(out)@.take(written as int) == mcoded7_encode(data@),
        final(out)@.skip(written as int) == old(out)@.skip(written as int),
{
    let mut pos: usize = 0;
    let mut start: usize = 0;
    let ghost out0 = out@;
    proof {
        lemma_mcoded7_len(data@);
        assert(data@.skip(0) =~= data@);
    }
    while start < data.len()
        invariant
            start <= data@.len(),
            pos == encoded_len(start as int),
            encoded_len(data@.len() as int) <= out0.len(),
            out@.len() == out0.len(),
            start < data@.len() ==> start % 7 == 0,
            out@.take(pos as int) + mcoded7_encode(data@.skip(start as int)) == mcoded7_encode(data@),
            out@.skip(encoded_len(data@.len() as int)) == out0.skip(encoded_len(data@.len() as int)),
        decreases data@.len() - start,
    {
        let end = if data.len() - start <= 7 { data.len() } else { start + 7 };
        let ghost rest = data@.skip(start as int);
        let ghost group = data@.subrange(start as int, end as int);
        proof {
            lemma_mcoded7_len(rest);
            assert(group =~= (if rest.len() <= 7 { rest } else { rest.take(7) }));
        }
        let mut high: u8 = 0;
        let mut i: usize = start;
        while i < end
            invariant
                start <= i <= end <= data@.len(),
                end - start <= 7,
                group == data@.subrange(start as int, end as int),
                high == high_bits(group.take(i - start)),
            decreases end - i,
        {
            let ghost k = i - start;
            assert(group.take(k + 1).drop_last() =~= group.take(k));
            if data[i] & 0x80 != 0 {
                high |= 1 << ((i - start) as u8);
            } else {
                assert(high == (high | 0u8)) by (bit_vector);
            }
            i += 1;
        }
        assert(group.take(end - start) =~= group);
        let ghost before = out@;
        out[pos] = high;
        pos += 1;
        let mut i: usize = start;
        while i < end
            invariant
                start <= i <= end <= data@.len(),
                end - start <= 7,
                pos == encoded_len(start as int) + 1 + (i - start),
                pos <= out@.len(),
                encoded_len(start as int) + 1 + (end - start) <= encoded_len(data@.len() as int),
                encoded_len(data@.len() as int) <= out@.len(),
                out@.len() == before.len(),
                group == data@.subrange(start as int, end as int),
                out@[encoded_len(start as int)] == high,
                forall|k: int| 0 <= k < encoded_len(start as int) ==> out@[k] == before[k],
                forall|k: int| pos <= k < out@.len() ==> out@[k] == before[k],
                forall|k: int| 0 <= k < i - start ==> out@[encoded_len(start as int) + 1 + k] == group[k] & 0x7F,
            decreases end - i,
        {
            out[pos] = data[i] & 0x7F;
            pos += 1;
            i += 1;
        }
        proof {
            let e0 = encoded_len(start as int);
            let head = seq![high] + group.map_values(|b: u8| b & 0x7F);
            assert(out@.subrange(e0, pos as int) =~= head);
            if rest.len() <= 7 {
                assert(mcoded7_encode(rest) == head);
                assert(data@.skip(end as int) =~= Seq::<u8>::empty());
            } else {
                assert(rest.skip(7) =~= data@.skip(end as int));
                assert(mcoded7_encode(rest) == head + mcoded7_encode(data@.skip(end as int)));
            }
            assert(out@.take(pos as int) =~= before.take(e0) + head);
            assert(out@.skip(encoded_len(data@.len() as int)) =~= before.skip(encoded_len(data@.len() as int)));
        }
        start = end;
    }
    assert(data@.skip(start as int) =~= Seq::<u8>::empty());
    assert(out@.take(pos as int) =~= mcoded7_encode(data@));
    pos
}

/// Decode mcoded7 data back to the data bytes.
/// Returns the number of bytes written to `out`.
pub fn decode_mcoded7(data: &[u8], out: &mut [u8]) -> (written: usize)
    requires
        old(out)@.len() >= decoded_len(data@.len() as int),
    ensures
        written == decoded_len(data@.len() as int),
        final(out)@.len() == old(out)@.len(),
        final(out)@.take(written as int) == mcoded7_decode(data@),
        final(out)@.skip(written as int) == old(out)@.skip(written as int),
{
    let mut pos: usize = 0;
    let mut i: usize = 0;
    let ghost out0 = out@;
    proof {
        assert(data@.skip(0) =~= data@);
    }
    while i < data.len()
        invariant
            i <= data@.len(),
            i < data@.len() ==> i % 8 == 0,
            pos == decoded_len(i as int),
            decoded_len(data@.len() as int) <= out0.len(),
            out@.len() == out0.len(),
            out@.take(pos as int) + mcoded7_decode(data@.skip(i as int)) == mcoded7_decode(data@),
            out@.skip(decoded_len(data@.len() as int)) == out0.skip(decoded_len(data@.len() as int)),
        decreases data@.len() - i,
    {
        let start = i;
        let end = if data.len() - start <= 8 { data.len() } else { start + 8 };
        let ghost rest = data@.skip(start as int);
        let ghost group = data@.subrange(start as int, end as int);
        assert(group =~= (if rest.len() <= 8 { rest } else { rest.take(8) }));
        assert(decoded_len(end as int) == decoded_len(start as int) + (end - start - 1));
        let ghost before = out@;
        let high = data[i];
        i += 1;
        let mut b: u8 = 0;
        while b < 7 && i < data.len()
            invariant
                start < i <= end <= data@.len(),
                end - start <= 8,
                i < end ==> b < 7,
                i == start + 1 + b,
                i == end || b < 7,
                end == data@.len() || end == start + 8,
                pos == decoded_len(start as int) + b,
                decoded_len(end as int) == decoded_len(start as int) + (end - start - 1),
                decoded_len(end as int) <= decoded_len(data@.len() as int),
                decoded_len(data@.len() as int) <= out@.len(),
                out@.len() == before.len(),
                group == data@.subrange(start as int, end as int),
                high == group[0],
                forall|k: int| 0 <= k < decoded_len(start as int) ==> out@[k] == before[k],
                forall|k: int| pos <= k < out@.len() ==> out@[k] == before[k],
                forall|k: int|
                    0 <= k < b ==> out@[decoded_len(start as int) + k] == decode_group(group)[k],
            decreases end - i,
        {
            out[pos] = data[i] | (if high & (1 << b) != 0 { 0x80 } else { 0 });
            pos += 1;
            i += 1;
            b += 1;
        }
        proof {
            let d0 = decoded_len(start as int);
            assert(i == end);
            assert(out@.subrange(d0, pos as int) =~= decode_group(group));
            if rest.len() <= 8 {
                assert(data@.skip(end as int) =~= Seq::<u8>::empty());
            } else {
                assert(rest.skip(8) =~= data@.skip(end as int));
            }
            assert(out@.take(pos as int) =~= before.take(d0) + decode_group(group));
            assert(out@.skip(decoded_len(data@.len() as int)) =~= before.skip(decoded_len(data@.len() as int)));
        }
    }
    assert(data@.skip(i as int) =~= Seq::<u8>::empty());
    assert(out@.take(pos as int) =~= mcoded7_decode(data@));
    pos
}

/// Check if a SysEx buffer is a MIDI-CI message.
pub fn is_ci_message(buf: &[u8]) -> (r: bool)
    ensures
        r == ci_message(buf@),
{
    buf.len() >= 15 && buf[0] == 0xF0 && buf[1] == UNIVERSAL_SYSEX && buf[3] == SUB_ID1_MIDI_CI
}

/// Check if the message is a Set Property Inquiry.
pub fn is_set_property(buf: &[u8]) -> (r: bool)
    ensures
        r == ci_kind(buf@, PE_SET_INQUIRY),
{
    is_ci_message(buf) && buf[4] == PE_SET_INQUIRY
}

/// Check if the message is a Get Property Inquiry.
pub fn is_get_property(buf: &[u8]) -> (r: bool)
    ensures
        r == ci_kind(buf@, PE_GET_INQUIRY),
{
    is_ci_message(buf) && buf[4] == PE_GET_INQUIRY
}

/// Check if the message is a Get Property Reply.
pub fn is_get_reply(buf: &[u8]) -> (r: bool)
    ensures
        r == ci_kind(buf@, PE_GET_REPLY),
{
    is_ci_message(buf) && buf[4] == PE_GET_REPLY
}

/// Extract the request_id field.
pub fn request_id(buf: &[u8]) -> (r: u8)
    requires
        buf@.len() > 14,
    ensures
        r == buf@[14],
{
    buf[14]
}

/// Extract the source MUID (4 bytes).
pub fn source_muid(buf: &[u8]) -> (r: [u8; 4])
    requires
        buf@.len() > 9,
    ensures
        r@ == buf@.subrange(6, 10),
{
    let r = [buf[6], buf[7], buf[8], buf[9]];
    assert(r@ =~= buf@.subrange(6, 10));
    r
}

/// Parsed Set Property Inquiry with resource identifier and body.
pub struct SetPropertyData<'a> {
    /// Resource identifier (preset index) from header.
    pub resource: u8,
    /// Body payload.
    pub body: &'a [u8],
}

proof fn lemma_field14_bound(lo: u8, hi: u8)
    ensures
        field14(lo, hi) < 0x8000,
{
    assert((lo as usize) | ((hi as usize) << 7usize) < 0x8000) by (bit_vector);
}

/// Read a 14-bit length field at `pos`.
fn read_len(buf: &[u8], pos: usize) -> (n: usize)
    requires
        pos + 2 <= buf@.len(),
    ensures
        n == field14(buf@[pos as int], buf@[pos + 1]),
        n < 0x8000,
{
    proof {
        lemma_field14_bound(buf@[pos as int], buf@[pos + 1]);
    }
    (buf[pos] as usize) | ((buf[pos + 1] as usize) << 7)
}

/// Locate the body of a PE message: its start and length.
fn locate_body(buf: &[u8]) -> (r: Option<(usize, usize)>)
    ensures
        match r {
            Some((start, len)) => start + len <= buf@.len() && body_of(buf@) == Some(
                buf@.subrange(start as int, start + len),
            ),
            None => body_of(buf@) is None,
        },
{
    let mut pos: usize = 15;
    if pos + 2 > buf.len() {
        return None;
    }
    // header_len (2 bytes, 7-bit LSB encoding)
    let header_len = read_len(buf, pos);
    pos += 2 + header_len;
    // num_chunks + chunk_num (4 bytes)
    if pos + 4 > buf.len() {
        return None;
    }
    pos += 4;
    // body_len (2 bytes, 7-bit LSB encoding)
    if pos + 2 > buf.len() {
        return None;
    }
    let body_len = read_len(buf, pos);
    pos += 2;
    if pos + body_len > buf.len() {
        return None;
    }
    Some((pos, body_len))
}

/// Extract resource identifier and body from a Set Property Inquiry.
pub fn extract_set_property(buf: &[u8]) -> (r: Option<SetPropertyData<'_>>)
    ensures
        match r {
            Some(d) => set_property_payload(buf@) == Some((d.resource, d.body@)),
            None => set_property_payload(buf@) is None,
        },
{
    if !is_set_property(buf) {
        return None;
    }
    if buf.len() < 16 {
        return None;
    }
    match locate_body(buf) {
        None => None,
        Some((start, len)) => {
            let header_len = read_len(buf, 15);
            // resource = first header byte (preset index), or 0 if no header
            let resource = if header_len > 0 && 17 < buf.len() {
                buf[17]
            } else {
                0
            };
            Some(SetPropertyData { resource, body: &buf[start..start + len] })
        },
    }
}

/// Legacy helper: extract just the body (ignores resource).
pub fn extract_body(buf: &[u8]) -> (r: Option<&[u8]>)
    ensures
        match r {
            Some(b) => set_property_payload(buf@) matches Some((_, body)) && body == b@,
            None => set_property_payload(buf@) is None,
        },
{
    match extract_set_property(buf) {
        Some(d) => Some(d.body),
        None => None,
    }
}

/// Extract body from a Get Property Reply.
pub fn extract_get_body(buf: &[u8]) -> (r: Option<&[u8]>)
    ensures
        match r {
            Some(b) => get_reply_body(buf@) == Some(b@),
            None => get_reply_body(buf@) is None,
        },
{
    if !is_get_reply(buf) || buf.len() < 16 {
        return None;
    }
    match locate_body(buf) {
        None => None,
        Some((start, len)) => Some(&buf[start..start + len]),
    }
}

/// Extract the resource identifier from a Get Property Inquiry.
pub fn extract_get_resource(buf: &[u8]) -> (r: Option<u8>)
    ensures
        r == get_resource(buf@),
{
    if !is_get_property(buf) || buf.len() < 16 {
        return None;
    }
    let pos: usize = 15;
    if pos + 2 > buf.len() {
        return None;
    }
    let header_len = read_len(buf, pos);
    if header_len > 0 && pos + 2 < buf.len() {
        Some(buf[pos + 2])
    } else {
        Some(0)
    }
}

/// The fixed fields of an outgoing message, appended to an empty message.
fn push_header32(msg: &mut heapless::Vec<u8, 32>, sub_id2: u8, source: [u8; 4], dest: [u8; 4], req_id: u8)
    requires
        bytes32(*old(msg)) == Seq::<u8>::empty(),
    ensures
        bytes32(*final(msg)) == ci_header(sub_id2, source@, dest@, req_id),
{
    let start = [0xF0, UNIVERSAL_SYSEX, 0x7F, SUB_ID1_MIDI_CI, sub_id2, CI_VERSION];
    bytes32_extend(msg, &start);
    bytes32_extend(msg, &source);
    bytes32_extend(msg, &dest);
    let req = [req_id];
    bytes32_extend(msg, &req);
    assert(start@ =~= seq![0xF0u8, UNIVERSAL_SYSEX, 0x7Fu8, SUB_ID1_MIDI_CI, sub_id2, CI_VERSION]);
    assert(req@ =~= seq![req_id]);
}

/// The fixed fields of an outgoing message, appended to an empty message.
fn push_header350(
    msg: &mut heapless::Vec<u8, 350>,
    sub_id2: u8,
    source: [u8; 4],
    dest: [u8; 4],
    req_id: u8,
)
    requires
        bytes350(*old(msg)) == Seq::<u8>::empty(),
    ensures
        bytes350(*final(msg)) == ci_header(sub_id2, source@, dest@, req_id),
{
    let start = [0xF0, UNIVERSAL_SYSEX, 0x7F, SUB_ID1_MIDI_CI, sub_id2, CI_VERSION];
    bytes350_extend(msg, &start);
    bytes350_extend(msg, &source);
    bytes350_extend(msg, &dest);
    let req = [req_id];
    bytes350_extend(msg, &req);
    assert(start@ =~= seq![0xF0u8, UNIVERSAL_SYSEX, 0x7Fu8, SUB_ID1_MIDI_CI, sub_id2, CI_VERSION]);
    assert(req@ =~= seq![req_id]);
}

/// The resource header, the mcoded7 body with its length, and the SysEx end.
fn push_resource_and_body(msg: &mut heapless::Vec<u8, 350>, resource: u8, body: &[u8])
    requires
        bytes350(*old(msg)).len() == 15,
        encoded_len(body@.len() as int) <= 300,
    ensures
        bytes350(*final(msg)) == bytes350(*old(msg)) + resource_header(resource) + body_field(body@)
            + seq![0xF7u8],
{
    // header_len = 1 (resource byte); num_chunks = 1, chunk_num = 1
    let header = [0x01, 0x00, resource, 0x01, 0x00, 0x01, 0x00];
    bytes350_extend(msg, &header);
    assert(header@ =~= resource_header(resource));
    // body (mcoded7 encoded)
    let mut encoded_body = [0u8; 300];
    let enc_len = encode_mcoded7(body, &mut encoded_body);
    proof {
        lemma_mcoded7_len(body@);
    }
    let len_field = [(enc_len & 0x7F) as u8, ((enc_len >> 7) & 0x7F) as u8];
    bytes350_extend(msg, &len_field);
    let encoded = &encoded_body[0..enc_len];
    assert(encoded@ =~= encoded_body@.take(enc_len as int));
    bytes350_extend(msg, encoded);
    let end = [0xF7];
    bytes350_extend(msg, &end);
    assert(len_field@ + encoded@ =~= body_field(body@));
    assert(end@ =~= seq![0xF7u8]);
    assert(bytes350(*msg) =~= bytes350(*old(msg)) + resource_header(resource) + body_field(body@)
        + seq![0xF7u8]);
}

/// Build a Set Property Reply (ACK).
pub fn build_set_reply(device_muid: [u8; 4], dest_muid: [u8; 4], req_id: u8) -> (msg:
    heapless::Vec<u8, 32>)
    ensures
        bytes32(msg) == set_reply_bytes(device_muid@, dest_muid@, req_id),
{
    let mut msg = bytes32_new();
    push_header32(&mut msg, PE_SET_REPLY, device_muid, dest_muid, req_id);
    // header_len = 0; num_chunks = 1, chunk_num = 1; body_len = 0
    let tail = [0x00, 0x00, 0x01, 0x00, 0x01, 0x00, 0x00, 0x00, 0xF7];
    bytes32_extend(&mut msg, &tail);
    assert(tail@ =~= seq![0x00u8, 0x00u8, 0x01u8, 0x00u8, 0x01u8, 0x00u8, 0x00u8, 0x00u8, 0xF7u8]);
    msg
}

/// Build a Set Property Inquiry message (CLI → device).
/// `resource` is the preset index (carried in header).
/// `body` must contain only 7-bit safe bytes.
pub fn build_set_inquiry(
    source_muid: [u8; 4],
    dest_muid: [u8; 4],
    req_id: u8,
    resource: u8,
    body: &[u8],
) -> (msg: heapless::Vec<u8, 350>)
    requires
        encoded_len(body@.len() as int) <= 300,
    ensures
        bytes350(msg) == set_inquiry_bytes(source_muid@, dest_muid@, req_id, resource, body@),
{
    let mut msg = bytes350_new();
    push_header350(&mut msg, PE_SET_INQUIRY, source_muid, dest_muid, req_id);
    push_resource_and_body(&mut msg, resource, body);
    msg
}

/// Build a Get Property Inquiry message (CLI → device).
pub fn build_get_inquiry(source_muid: [u8; 4], dest_muid: [u8; 4], req_id: u8, resource: u8) -> (msg:
    heapless::Vec<u8, 32>)
    ensures
        bytes32(msg) == get_inquiry_bytes(source_muid@, dest_muid@, req_id, resource),
{
    let mut msg = bytes32_new();
    push_header32(&mut msg, PE_GET_INQUIRY, source_muid, dest_muid, req_id);
    // header_len = 1 (resource byte); num_chunks = 1, chunk_num = 1; body_len = 0
    let tail = [0x01, 0x00, resource, 0x01, 0x00, 0x01, 0x00, 0x00, 0x00, 0xF7];
    bytes32_extend(&mut msg, &tail);
    assert(tail@ =~= resource_header(resource) + seq![0x00u8, 0x00u8, 0xF7u8]);
    msg
}

/// Build a Get Property Reply with body data.
pub fn build_get_reply(
    device_muid: [u8; 4],
    dest_muid: [u8; 4],
    req_id: u8,
    resource: u8,
    body: &[u8],
) -> (msg: heapless::Vec<u8, 350>)
    requires
        encoded_len(body@.len() as int) <= 300,
    ensures
        bytes350(msg) == get_reply_bytes(device_muid@, dest_muid@, req_id, resource, body@),
{
    let mut msg = bytes350_new();
    push_header350(&mut msg, PE_GET_REPLY, device_muid, dest_muid, req_id);
    push_resource_and_body(&mut msg, resource, body);
    msg
}

proof fn lemma_field14_split(n: usize)
    requires
        n < 0x4000,
    ensures
        field14((n & 0x7F) as u8, ((n >> 7usize) & 0x7F) as u8) == n,
{
    assert(((((n & 0x7F) as u8) as usize) | (((((n >> 7usize) & 0x7F) as u8) as usize) << 7usize))
        == n) by (bit_vector)
        requires
            n < 0x4000,
    ;
}

proof fn lemma_field14_small()
    ensures
        field14(1, 0) == 1,
        field14(0, 0) == 0,
{
    assert(((1u8 as usize) | ((0u8 as usize) << 7usize)) == 1) by (bit_vector);
    assert(((0u8 as usize) | ((0u8 as usize) << 7usize)) == 0) by (bit_vector);
}

/// The PE fields of a message with a resource header followed by a body
/// field: the resource is read back and the body field's contents are the body.
proof fn lemma_resource_body(head: Seq<u8>, resource: u8, body: Seq<u8>)
    requires
        head.len() == 15,
        encoded_len(body.len() as int) < 0x4000,
    ensures
        ({
            let m = head + resource_header(resource) + body_field(body) + seq![0xF7u8];
            &&& m.len() == 25 + mcoded7_encode(body).len()
            &&& resource_of(m) == resource
            &&& body_of(m) == Some(mcoded7_encode(body))
        }),
{
    let enc = mcoded7_encode(body);
    lemma_mcoded7_len(body);
    let n = enc.len() as usize;
    lemma_field14_split(n);
    lemma_field14_small();
    let m = head + resource_header(resource) + body_field(body) + seq![0xF7u8];
    assert(m[15] == 1 && m[16] == 0 && m[17] == resource);
    assert(m[22] == (n & 0x7F) as u8 && m[23] == ((n >> 7usize) & 0x7F) as u8);
    assert(m.subrange(24, 24 + n) =~= enc);
}

/// A Set Property Inquiry reads back as built: it is a Set Property Inquiry
/// with the given request id and source MUID, its resource is the given one,
/// and its body is the mcoded7 encoding of the given body, which decodes to it.
pub proof fn lemma_set_inquiry_roundtrip(
    source: Seq<u8>,
    dest: Seq<u8>,
    req_id: u8,
    resource: u8,
    body: Seq<u8>,
)
    requires
        source.len() == 4,
        dest.len() == 4,
        encoded_len(body.len() as int) <= 300,
    ensures
        ({
            let m = set_inquiry_bytes(source, dest, req_id, resource, body);
            &&& ci_message(m) && ci_kind(m, PE_SET_INQUIRY)
            &&& m[14] == req_id
            &&& m.subrange(6, 10) == source
            &&& m.subrange(10, 14) == dest
            &&& set_property_payload(m) == Some((resource, mcoded7_encode(body)))
            &&& mcoded7_decode(mcoded7_encode(body)) == body
        }),
{
    let head = ci_header(PE_SET_INQUIRY, source, dest, req_id);
    lemma_resource_body(head, resource, body);
    let m = set_inquiry_bytes(source, dest, req_id, resource, body);
    assert(m =~= head + resource_header(resource) + body_field(body) + seq![0xF7u8]);
    assert(m.subrange(6, 10) =~= source);
    assert(m.subrange(10, 14) =~= dest);
    lemma_mcoded7_roundtrip(body);
}

/// A Get Property Reply reads back as built: it is a Get Property Reply whose
/// body is the mcoded7 encoding of the given body.
pub proof fn lemma_get_reply_roundtrip(
    device: Seq<u8>,
    dest: Seq<u8>,
    req_id: u8,
    resource: u8,
    body: Seq<u8>,
)
    requires
        device.len() == 4,
        dest.len() == 4,
        encoded_len(body.len() as int) <= 300,
    ensures
        ({
            let m = get_reply_bytes(device, dest, req_id, resource, body);
            &&& ci_kind(m, PE_GET_REPLY)
            &&& !ci_kind(m, PE_SET_INQUIRY)
            &&& m.subrange(6, 10) == device
            &&& m.subrange(10, 14) == dest
            &&& m[14] == req_id
            &&& get_reply_body(m) == Some(mcoded7_encode(body))
            &&& mcoded7_decode(mcoded7_encode(body)) == body
        }),
{
    let head = ci_header(PE_GET_REPLY, device, dest, req_id);
    lemma_resource_body(head, resource, body);
    let m = get_reply_bytes(device, dest, req_id, resource, body);
    assert(m =~= head + resource_header(resource) + body_field(body) + seq![0xF7u8]);
    assert(m.subrange(6, 10) =~= device);
    assert(m.subrange(10, 14) =~= dest);
    lemma_mcoded7_roundtrip(body);
}

/// A Get Property Inquiry reads back as built: it is a Get Property Inquiry
/// (not a Set Property Inquiry) with the given request id and resource.
pub proof fn lemma_get_inquiry_roundtrip(source: Seq<u8>, dest: Seq<u8>, req_id: u8, resource: u8)
    requires
        source.len() == 4,
        dest.len() == 4,
    ensures
        ({
            let m = get_inquiry_bytes(source, dest, req_id, resource);
            &&& m.len() == 25
            &&& ci_kind(m, PE_GET_INQUIRY)
            &&& !ci_kind(m, PE_SET_INQUIRY)
            &&& m[14] == req_id
            &&& m.subrange(6, 10) == source
            &&& m.subrange(10, 14) == dest
            &&& get_resource(m) == Some(resource)
        }),
{
    lemma_field14_small();
    let m = get_inquiry_bytes(source, dest, req_id, resource);
    assert(m[15] == 1 && m[16] == 0 && m[17] == resource);
    assert(m.subrange(6, 10) =~= source);
    assert(m.subrange(10, 14) =~= dest);
}

/// A Set Property Reply is a MIDI-CI reply of sub-ID2 `PE_SET_REPLY` carrying
/// the request id, with no header and an empty body, ended by `0xF7`.
pub proof fn lemma_set_reply_structure(device: Seq<u8>, dest: Seq<u8>, req_id: u8)
    requires
        device.len() == 4,
        dest.len() == 4,
    ensures
        ({
            let m = set_reply_bytes(device, dest, req_id);
            &&& m.len() == 24
            &&& ci_kind(m, PE_SET_REPLY)
            &&& m.subrange(6, 10) == device
            &&& m.subrange(10, 14) == dest
            &&& m[14] == req_id
            &&& m.last() == 0xF7
            &&& body_of(m) == Some(Seq::<u8>::empty())
        }),
{
    lemma_field14_small();
    let m = set_reply_bytes(device, dest, req_id);
    assert(m[15] == 0 && m[16] == 0 && m[21] == 0 && m[22] == 0);
    assert(m.subrange(23, 23) =~= Seq::<u8>::empty());
    assert(m.subrange(6, 10) =~= device);
    assert(m.subrange(10, 14) =~= dest);
}

} // verus!
