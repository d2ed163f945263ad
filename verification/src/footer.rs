//! The footer that carries the saved state behind the data of an unfinished file: the state in
//! bytes, their number, and a mark by which the footer is known.
use vstd::bytes::*;
use vstd::prelude::*;

verus! {

/// The last eight bytes of a file with a footer, as a little-endian number: `DLSTATE1`.
pub const FOOTER_MARK: u64 = 0x3145_5441_5453_4c44;

/// The bytes of the trailer behind the payload: its length and the mark.
pub const TRAILER_LEN: u64 = 16;

/// A footer that carries `payload`.
pub open spec fn footer(payload: Seq<u8>) -> Seq<u8> {
    payload + spec_u64_to_le_bytes(payload.len() as u64) + spec_u64_to_le_bytes(FOOTER_MARK)
}

/// Where the payload lies in a file of `file_len` bytes that ends in `trailer`: its start and its
/// length, if the trailer is one.
pub open spec fn payload_range(trailer: Seq<u8>, file_len: int) -> Option<(int, int)> {
    let len = spec_u64_from_le_bytes(trailer.subrange(0, 8));
    if spec_u64_from_le_bytes(trailer.subrange(8, 16)) == FOOTER_MARK && len <= file_len
        - TRAILER_LEN {
        Some((file_len - TRAILER_LEN - len, len as int))
    } else {
        None
    }
}

/// The payload of the footer of a file, if it has one.
pub open spec fn footer_payload(file: Seq<u8>) -> Option<Seq<u8>> {
    if file.len() < TRAILER_LEN {
        None
    } else {
        match payload_range(
            file.subrange(file.len() - TRAILER_LEN, file.len() as int),
            file.len() as int,
        ) {
            Some((start, len)) => Some(file.subrange(start, start + len)),
            None => None,
        }
    }
}

/// The footer that carries `payload`.
pub fn footer_bytes(payload: &Vec<u8>) -> (r: Vec<u8>)
    ensures
        r@ == footer(payload@),
{
    let mut out: Vec<u8> = Vec::new();
    let mut len = u64_to_le_bytes(payload.len() as u64);
    let mut mark = u64_to_le_bytes(FOOTER_MARK);
    let mut body = payload.clone();
    assert(body@ =~= payload@);
    out.append(&mut body);
    out.append(&mut len);
    out.append(&mut mark);
    out
}

/// Where the payload lies in a file of `file_len` bytes whose last sixteen are `trailer`.
pub fn find_payload(trailer: &Vec<u8>, file_len: u64) -> (r: Option<(u64, u64)>)
    requires
        trailer.len() == TRAILER_LEN,
        file_len >= TRAILER_LEN,
    ensures
        match payload_range(trailer@, file_len as int) {
            Some((start, len)) => r is Some && r->Some_0.0 == start && r->Some_0.1 == len,
            None => r is None,
        },
{
    let (first, second) = trailer.as_slice().split_at(8);
    proof {
        assert(first@ =~= trailer@.subrange(0, 8));
        assert(second@ =~= trailer@.subrange(8, 16));
    }
    let len: u64 = u64_from_le_bytes(first);
    let mark: u64 = u64_from_le_bytes(second);
    if mark == FOOTER_MARK && len <= file_len - TRAILER_LEN {
        Some((file_len - TRAILER_LEN - len, len))
    } else {
        None
    }
}

/// A file with a footer gives back the payload, whatever data comes before it; and cut to the
/// length of the data, it is the data again.
pub proof fn law_footer_reads_back(data: Seq<u8>, payload: Seq<u8>)
    requires
        payload.len() <= u64::MAX,
    ensures
        footer_payload(data + footer(payload)) == Some(payload),
        (data + footer(payload)).take(data.len() as int) == data,
        footer(payload).len() == payload.len() + TRAILER_LEN,
{
    lemma_auto_spec_u64_to_from_le_bytes();
    let file = data + footer(payload);
    let len = spec_u64_to_le_bytes(payload.len() as u64);
    let mark = spec_u64_to_le_bytes(FOOTER_MARK);
    let trailer = file.subrange(file.len() - TRAILER_LEN, file.len() as int);
    assert(trailer.subrange(0, 8) =~= len);
    assert(trailer.subrange(8, 16) =~= mark);
    let start = data.len() as int;
    assert(file.subrange(start, start + payload.len()) =~= payload);
    assert(file.take(start) =~= data);
}

/// Behind the data and the payload, the last sixteen bytes tell the length of the payload, the
/// lowest byte first, and spell `DLSTATE1`.
pub proof fn law_footer_ends_in_length_and_mark(payload: Seq<u8>)
    requires
        payload.len() <= u64::MAX,
    ensures
        ({
            let written = footer(payload);
            let n = payload.len() as int;
            let len = written.subrange(n, n + 8);
            &&& written.take(n) == payload
            &&& len[0] + 0x100 * len[1] + 0x1_0000 * len[2] + 0x100_0000 * len[3] + 0x1_0000_0000
                * len[4] + 0x100_0000_0000 * len[5] + 0x1_0000_0000_0000 * len[6]
                + 0x100_0000_0000_0000 * len[7] == n
            &&& written.skip(n + 8) == seq![
                0x44u8,
                0x4cu8,
                0x53u8,
                0x54u8,
                0x41u8,
                0x54u8,
                0x45u8,
                0x31u8,
            ]
        }),
{
    lemma_auto_spec_u64_to_from_le_bytes();
    let written = footer(payload);
    let n = payload.len() as int;
    lemma_low_byte_first(payload.len() as u64);
    assert(written.take(n) =~= payload);
    assert(written.subrange(n, n + 8) =~= spec_u64_to_le_bytes(payload.len() as u64));
    lemma_mark_bytes();
    assert(written.skip(n + 8) =~= spec_u64_to_le_bytes(FOOTER_MARK));
}

proof fn lemma_low_byte_first(n: u64)
    ensures
        ({
            let len = spec_u64_to_le_bytes(n);
            len[0] + 0x100 * len[1] + 0x1_0000 * len[2] + 0x100_0000 * len[3] + 0x1_0000_0000
                * len[4] + 0x100_0000_0000 * len[5] + 0x1_0000_0000_0000 * len[6]
                + 0x100_0000_0000_0000 * len[7] == n
        }),
{
    spec_u64_to_le_bytes_to_open(n);
    assert((n & 0xff) as u8 + 0x100 * ((n >> 8) & 0xff) as u8 + 0x1_0000 * ((n >> 16) & 0xff) as u8
        + 0x100_0000 * ((n >> 24) & 0xff) as u8 + 0x1_0000_0000 * ((n >> 32) & 0xff) as u8
        + 0x100_0000_0000 * ((n >> 40) & 0xff) as u8 + 0x1_0000_0000_0000 * ((n >> 48)
        & 0xff) as u8 + 0x100_0000_0000_0000 * ((n >> 56) & 0xff) as u8 == n) by {
        assert((n & 0xff) + 0x100 * ((n >> 8) & 0xff) + 0x1_0000 * ((n >> 16) & 0xff) + 0x100_0000
            * ((n >> 24) & 0xff) + 0x1_0000_0000 * ((n >> 32) & 0xff) + 0x100_0000_0000 * ((n >> 40)
            & 0xff) + 0x1_0000_0000_0000 * ((n >> 48) & 0xff) + 0x100_0000_0000_0000 * ((n >> 56)
            & 0xff) == n) by (bit_vector);
        assert(n & 0xff <= 0xff) by (bit_vector);
        assert((n >> 8) & 0xff <= 0xff) by (bit_vector);
        assert((n >> 16) & 0xff <= 0xff) by (bit_vector);
        assert((n >> 24) & 0xff <= 0xff) by (bit_vector);
        assert((n >> 32) & 0xff <= 0xff) by (bit_vector);
        assert((n >> 40) & 0xff <= 0xff) by (bit_vector);
        assert((n >> 48) & 0xff <= 0xff) by (bit_vector);
        assert((n >> 56) & 0xff <= 0xff) by (bit_vector);
    }
}

proof fn lemma_mark_bytes()
    ensures
        spec_u64_to_le_bytes(FOOTER_MARK) == seq![
            0x44u8,
            0x4cu8,
            0x53u8,
            0x54u8,
            0x41u8,
            0x54u8,
            0x45u8,
            0x31u8,
        ],
{
    let mark = 0x3145_5441_5453_4c44u64;
    spec_u64_to_le_bytes_to_open(mark);
    assert(mark & 0xff == 0x44) by (bit_vector)
        requires
            mark == 0x3145_5441_5453_4c44u64,
    ;
    assert((mark >> 8) & 0xff == 0x4c) by (bit_vector)
        requires
            mark == 0x3145_5441_5453_4c44u64,
    ;
    assert((mark >> 16) & 0xff == 0x53) by (bit_vector)
        requires
            mark == 0x3145_5441_5453_4c44u64,
    ;
    assert((mark >> 24) & 0xff == 0x54) by (bit_vector)
        requires
            mark == 0x3145_5441_5453_4c44u64,
    ;
    assert((mark >> 32) & 0xff == 0x41) by (bit_vector)
        requires
            mark == 0x3145_5441_5453_4c44u64,
    ;
    assert((mark >> 40) & 0xff == 0x54) by (bit_vector)
        requires
            mark == 0x3145_5441_5453_4c44u64,
    ;
    assert((mark >> 48) & 0xff == 0x45) by (bit_vector)
        requires
            mark == 0x3145_5441_5453_4c44u64,
    ;
    assert((mark >> 56) & 0xff == 0x31) by (bit_vector)
        requires
            mark == 0x3145_5441_5453_4c44u64,
    ;
    assert(spec_u64_to_le_bytes(FOOTER_MARK) =~= seq![
        0x44u8,
        0x4cu8,
        0x53u8,
        0x54u8,
        0x41u8,
        0x54u8,
        0x45u8,
        0x31u8,
    ]);
}

/// What is read as a payload stands before a trailer: a file has one exactly if some data with
/// the footer of that payload is the file.
pub proof fn law_payload_is_of_a_footer(file: Seq<u8>)
    ensures
        footer_payload(file) is Some ==> {
            let payload = footer_payload(file)->Some_0;
            &&& payload.len() + 16 <= file.len()
            &&& file == file.take(file.len() - payload.len() - 16) + footer(payload)
        },
        footer_payload(file) is None ==> forall|data: Seq<u8>, payload: Seq<u8>|
            payload.len() <= u64::MAX ==> file != #[trigger] (data + footer(payload)),
{
    lemma_auto_spec_u64_to_from_le_bytes();
    if footer_payload(file) is Some {
        let payload = footer_payload(file)->Some_0;
        let trailer = file.subrange(file.len() - TRAILER_LEN, file.len() as int);
        let front = trailer.subrange(0, 8);
        let back = trailer.subrange(8, 16);
        assert(spec_u64_to_le_bytes(spec_u64_from_le_bytes(front)) == front);
        assert(spec_u64_to_le_bytes(spec_u64_from_le_bytes(back)) == back);
        assert(file =~= file.take(file.len() - payload.len() - 16) + footer(payload));
    } else {
        assert forall|data: Seq<u8>, payload: Seq<u8>| payload.len() <= u64::MAX implies file
            != #[trigger] (data + footer(payload)) by {
            law_footer_reads_back(data, payload);
        }
    }
}

/// In a file of data and a footer, the payload is found behind the data.
pub proof fn law_payload_is_found_behind_the_data(
    data: Seq<u8>,
    payload: Seq<u8>,
    trailer: Vec<u8>,
    file_len: u64,
    found: Option<(u64, u64)>,
)
    requires
        call_ensures(find_payload, (&trailer, file_len), found),
        file_len == data.len() + payload.len() + 16,
        trailer@ == (data + footer(payload)).skip(file_len - 16),
    ensures
        found is Some,
        found->Some_0.0 == data.len(),
        found->Some_0.1 == payload.len(),
{
    lemma_auto_spec_u64_to_from_le_bytes();
    let len = spec_u64_to_le_bytes(payload.len() as u64);
    let mark = spec_u64_to_le_bytes(FOOTER_MARK);
    assert(trailer@.subrange(0, 8) =~= len);
    assert(trailer@.subrange(8, 16) =~= mark);
}

} // verus!
