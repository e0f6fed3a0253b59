//! Length-prefixed frames over a stream of records.
//!
//! A frame is the length of its payload in four bytes, most significant byte first, and then the
//! payload. The payload of a signaling frame is the JSON text of one message. A frame may arrive
//! in several records; [`recv_message`] puts it together again.
use std::collections::VecDeque;
use vstd::prelude::*;
use vstd::slice::slice_subrange;
use vstd::slice::slice_to_vec;
use vstd::utf8::encode_utf8;

verus! {

/// The largest payload that the reassembler is willing to buffer.
pub const MAX_FRAME_SIZE: usize = 4194304;

/// `bytes::BytesMut`, the growable byte buffer of the `bytes` crate.
#[verifier::external_type_specification]
#[verifier::external_body]
pub struct ExBytesMut(bytes::BytesMut);

/// The bytes that a buffer holds.
pub uninterp spec fn buffered(b: bytes::BytesMut) -> Seq<u8>;

/// `BytesMut::new`: a buffer that holds nothing.
#[verifier::external_body]
fn buffer_new() -> (r: bytes::BytesMut)
    ensures
        buffered(r) == Seq::<u8>::empty(),
{
    bytes::BytesMut::new()
}

/// `BytesMut::len`: how many bytes the buffer holds.
#[verifier::external_body]
fn buffer_len(b: &bytes::BytesMut) -> (r: usize)
    ensures
        r == buffered(*b).len(),
{
    b.len()
}

/// Indexing through `BytesMut`'s `Deref` to `[u8]`: one of the bytes that the buffer holds.
#[verifier::external_body]
fn buffer_byte(b: &bytes::BytesMut, i: usize) -> (r: u8)
    requires
        i < buffered(*b).len(),
    ensures
        r == buffered(*b)[i as int],
{
    b[i]
}

/// `BytesMut::extend_from_slice`: appends `data`. The buffer has to fit in the address space.
#[verifier::external_body]
fn buffer_extend(b: &mut bytes::BytesMut, data: &[u8])
    requires
        buffered(*old(b)).len() + data@.len() <= isize::MAX,
    ensures
        buffered(*final(b)) == buffered(*old(b)) + data@,
{
    b.extend_from_slice(data)
}

/// `BytesMut::split_to`: takes the first `at` bytes out of the buffer.
#[verifier::external_body]
fn buffer_split_to(b: &mut bytes::BytesMut, at: usize) -> (r: bytes::BytesMut)
    requires
        at <= buffered(*old(b)).len(),
    ensures
        buffered(r) == buffered(*old(b)).take(at as int),
        buffered(*final(b)) == buffered(*old(b)).skip(at as int),
{
    b.split_to(at)
}

/// The four length bytes of a payload of `n` bytes; a length over 32 bits loses its upper bits.
pub open spec fn length_bytes(n: nat) -> Seq<u8> {
    seq![
        (n / 0x1000000 % 0x100) as u8,
        (n / 0x10000 % 0x100) as u8,
        (n / 0x100 % 0x100) as u8,
        (n % 0x100) as u8,
    ]
}

/// The frame around a payload.
pub open spec fn frame(payload: Seq<u8>) -> Seq<u8> {
    length_bytes(payload.len()) + payload
}

/// The length that the first four bytes announce.
pub open spec fn announced(b: Seq<u8>) -> int {
    b[0] * 0x1000000 + b[1] * 0x10000 + b[2] * 0x100 + b[3]
}

/// Why no frame can be read.
#[derive(Debug, Clone, Copy, PartialEq, Eq, Structural)]
pub enum FrameError {
    /// The announced length is over [`MAX_FRAME_SIZE`].
    TooLarge(u32),
    /// The record has no room for a length.
    TooShort,
    /// The record ends before the announced length.
    Incomplete,
}

/// The message of a frame error.
pub open spec fn frame_error_text(e: FrameError) -> Seq<char> {
    match e {
        FrameError::TooLarge(n) => "Frame too large: "@ + crate::text::decimal(n as nat) + " bytes"@,
        FrameError::TooShort => "Frame too short"@,
        FrameError::Incomplete => "Incomplete frame"@,
    }
}

impl FrameError {
    /// The message of the error.
    pub fn message(&self) -> (r: String)
        ensures
            r@ == frame_error_text(*self),
    {
        match self {
            FrameError::TooLarge(n) => "Frame too large: ".to_owned().concat(
                crate::text::decimal_string(*n as u64).as_str(),
            ).concat(" bytes"),
            FrameError::TooShort => "Frame too short".to_owned(),
            FrameError::Incomplete => "Incomplete frame".to_owned(),
        }
    }
}

/// What a buffer gives: its first payload and what follows it, or nothing yet.
pub open spec fn next_frame(b: Seq<u8>) -> Result<Option<(Seq<u8>, Seq<u8>)>, FrameError> {
    if b.len() < 4 {
        Ok(None)
    } else if announced(b) > MAX_FRAME_SIZE {
        Err(FrameError::TooLarge(announced(b) as u32))
    } else if b.len() < 4 + announced(b) {
        Ok(None)
    } else {
        Ok(Some((b.subrange(4, 4 + announced(b)), b.skip(4 + announced(b)))))
    }
}

/// The frame of one message, given the JSON text of the message.
pub fn encode_message(json: &str) -> (r: Vec<u8>)
    ensures
        r@ == frame(encode_utf8(json@)),
{
    let payload = json.as_bytes();
    let n: u64 = payload.len() as u64;
    let mut r: Vec<u8> = Vec::new();
    r.push((n / 0x1000000 % 0x100) as u8);
    r.push((n / 0x10000 % 0x100) as u8);
    r.push((n / 0x100 % 0x100) as u8);
    r.push((n % 0x100) as u8);
    r.extend_from_slice(payload);
    assert(r@ =~= frame(payload@));
    r
}

/// The payload of a frame that fills the head of one record.
pub open spec fn record_payload(data: Seq<u8>) -> Result<Seq<u8>, FrameError> {
    if data.len() < 4 {
        Err(FrameError::TooShort)
    } else if data.len() < 4 + announced(data) {
        Err(FrameError::Incomplete)
    } else {
        Ok(data.subrange(4, 4 + announced(data)))
    }
}

/// Reads the frame at the head of `data`; what follows the frame is dropped.
pub fn decode_record(data: &[u8]) -> (r: Result<Vec<u8>, FrameError>)
    ensures
        match r {
            Ok(p) => record_payload(data@) == Ok::<Seq<u8>, FrameError>(p@),
            Err(e) => record_payload(data@) == Err::<Seq<u8>, FrameError>(e),
        },
{
    if data.len() < 4 {
        return Err(FrameError::TooShort);
    }
    let n: u64 = (data[0] as u64) * 0x1000000 + (data[1] as u64) * 0x10000 + (data[2] as u64)
        * 0x100 + (data[3] as u64);
    if ((data.len() - 4) as u64) < n {
        return Err(FrameError::Incomplete);
    }
    let end: usize = 4 + n as usize;
    Ok(slice_to_vec(slice_subrange(data, 4, end)))
}

/// Takes the first complete frame out of the buffer.
///
/// `None` means that more records are needed. The buffer is left alone then, and after an error.
pub fn take_frame(buf: &mut bytes::BytesMut) -> (r: Result<Option<Vec<u8>>, FrameError>)
    ensures
        match next_frame(buffered(*old(buf))) {
            Ok(Some((payload, rest))) => r matches Ok(Some(p)) && p@ == payload && buffered(
                *final(buf),
            ) == rest,
            Ok(None) => r matches Ok(None) && *final(buf) == *old(buf),
            Err(e) => r == Err::<Option<Vec<u8>>, FrameError>(e) && *final(buf) == *old(buf),
        },
{
    let len = buffer_len(buf);
    if len < 4 {
        return Ok(None);
    }
    let n: u64 = (buffer_byte(buf, 0) as u64) * 0x1000000 + (buffer_byte(buf, 1) as u64) * 0x10000
        + (buffer_byte(buf, 2) as u64) * 0x100 + (buffer_byte(buf, 3) as u64);
    if n > MAX_FRAME_SIZE as u64 {
        return Err(FrameError::TooLarge(n as u32));
    }
    let n: usize = n as usize;
    if len - 4 < n {
        return Ok(None);
    }
    let whole = buffer_split_to(buf, 4 + n);
    let mut payload: Vec<u8> = Vec::new();
    let mut i: usize = 0;
    while i < n
        invariant
            i <= n,
            buffered(whole).len() == 4 + n,
            4 + n <= usize::MAX,
            payload@ == buffered(whole).subrange(4, 4 + i),
        decreases n - i,
    {
        payload.push(buffer_byte(&whole, 4 + i));
        assert(payload@ =~= buffered(whole).subrange(4, 4 + i + 1));
        i = i + 1;
    }
    assert(payload@ =~= buffered(*old(buf)).subrange(4, 4 + n));
    Ok(Some(payload))
}

/// What reading a message comes to.
#[verifier::ext_equal]
pub struct Received {
    /// The payload, `None` when the records ran out, or the error.
    pub result: Result<Option<Seq<u8>>, FrameError>,
    /// What stays in the buffer.
    pub buffer: Seq<u8>,
    /// The records that were not needed.
    pub records: Seq<Seq<u8>>,
}

/// Reading one message: records are taken in only as long as no frame is complete.
pub open spec fn receive(b: Seq<u8>, records: Seq<Seq<u8>>) -> Received
    decreases records.len(),
{
    match next_frame(b) {
        Err(e) => Received { result: Err(e), buffer: b, records },
        Ok(Some((payload, rest))) => Received { result: Ok(Some(payload)), buffer: rest, records },
        Ok(None) => if records.len() == 0 {
            Received { result: Ok(None), buffer: b, records }
        } else {
            receive(b + records[0], records.drop_first())
        },
    }
}

/// The records of a queue.
pub open spec fn queued(q: Seq<Vec<u8>>) -> Seq<Seq<u8>> {
    q.map_values(|v: Vec<u8>| v@)
}

/// How many bytes a sequence of records holds.
pub open spec fn total_len(records: Seq<Seq<u8>>) -> nat
    decreases records.len(),
{
    if records.len() == 0 {
        0
    } else {
        records[0].len() + total_len(records.drop_first())
    }
}

/// Reads one message: the payload of its frame, put together from as many of the waiting records
/// as it takes. `None` means that the records ran out before the frame was complete.
pub fn recv_message(
    records: &mut VecDeque<Vec<u8>>,
    buf: &mut bytes::BytesMut,
) -> (r: Result<Option<Vec<u8>>, FrameError>)
    requires
        buffered(*old(buf)).len() + total_len(queued(old(records)@)) <= isize::MAX,
    ensures
        ({
            let got = receive(buffered(*old(buf)), queued(old(records)@));
            &&& buffered(*final(buf)) == got.buffer
            &&& queued(final(records)@) == got.records
            &&& match r {
                Ok(Some(p)) => got.result == Ok::<Option<Seq<u8>>, FrameError>(Some(p@)),
                Ok(None) => got.result == Ok::<Option<Seq<u8>>, FrameError>(None),
                Err(e) => got.result == Err::<Option<Seq<u8>>, FrameError>(e),
            }
        }),
{
    loop
        invariant
            buffered(*buf).len() + total_len(queued(records@)) <= isize::MAX,
            receive(buffered(*buf), queued(records@)) == receive(
                buffered(*old(buf)),
                queued(old(records)@),
            ),
        decreases records@.len(),
    {
        match take_frame(buf) {
            Err(e) => {
                return Err(e);
            },
            Ok(Some(p)) => {
                return Ok(Some(p));
            },
            Ok(None) => {},
        }
        let ghost before = records@;
        match records.pop_front() {
            None => {
                assert(queued(records@) =~= queued(before));
                return Ok(None);
            },
            Some(data) => {
                proof {
                    assert(queued(before).drop_first() =~= queued(records@));
                    assert(queued(before)[0] == data@);
                }
                buffer_extend(buf, data.as_slice());
            },
        }
    }
}

/// A buffer for [`recv_message`] that holds nothing yet.
pub fn new_buffer() -> (r: bytes::BytesMut)
    ensures
        buffered(r) == Seq::<u8>::empty(),
{
    buffer_new()
}

proof fn lemma_four_bytes(v: u32)
    by (bit_vector)
    ensures
        v == (v / 0x1000000 % 0x100) * 0x1000000 + (v / 0x10000 % 0x100) * 0x10000 + (v / 0x100
            % 0x100) * 0x100 + v % 0x100,
{
}

proof fn lemma_announced(payload: Seq<u8>, rest: Seq<u8>)
    requires
        payload.len() < 0x100000000,
    ensures
        announced(frame(payload) + rest) == payload.len(),
{
    let n = payload.len();
    let b = frame(payload) + rest;
    assert(b[0] == length_bytes(n)[0] && b[1] == length_bytes(n)[1] && b[2] == length_bytes(n)[2]
        && b[3] == length_bytes(n)[3]);
    lemma_four_bytes(n as u32);
}

/// A frame is read back whole: its payload first, then what follows the frame.
pub proof fn law_frame_reads_back(payload: Seq<u8>, rest: Seq<u8>)
    requires
        payload.len() <= MAX_FRAME_SIZE,
    ensures
        next_frame(frame(payload) + rest) == Ok::<Option<(Seq<u8>, Seq<u8>)>, FrameError>(
            Some((payload, rest)),
        ),
{
    lemma_announced(payload, rest);
    let b = frame(payload) + rest;
    assert(b.subrange(4, 4 + payload.len() as int) =~= payload);
    assert(b.skip(4 + payload.len() as int) =~= rest);
}

/// A frame that has not arrived whole gives nothing yet, and is no error.
pub proof fn law_partial_frame_waits(payload: Seq<u8>, k: int)
    requires
        payload.len() <= MAX_FRAME_SIZE,
        0 <= k < frame(payload).len(),
    ensures
        next_frame(frame(payload).take(k)) == Ok::<Option<(Seq<u8>, Seq<u8>)>, FrameError>(None),
{
    lemma_announced(payload, Seq::empty());
    assert(frame(payload) + Seq::<u8>::empty() =~= frame(payload));
    if k >= 4 {
        assert(announced(frame(payload).take(k)) == announced(frame(payload)));
    }
}

/// The bytes of a sequence of records, end to end.
pub open spec fn stream(records: Seq<Seq<u8>>) -> Seq<u8>
    decreases records.len(),
{
    if records.len() == 0 {
        Seq::empty()
    } else {
        records[0] + stream(records.drop_first())
    }
}

/// However a frame is cut into records, its payload comes out whole, and nothing of what follows
/// it is lost.
pub proof fn law_fragmented_frame_reassembles(
    payload: Seq<u8>,
    rest: Seq<u8>,
    head: Seq<u8>,
    records: Seq<Seq<u8>>,
)
    requires
        payload.len() <= MAX_FRAME_SIZE,
        head + stream(records) == frame(payload) + rest,
    ensures
        receive(head, records).result == Ok::<Option<Seq<u8>>, FrameError>(Some(payload)),
        receive(head, records).buffer + stream(receive(head, records).records) == rest,
    decreases records.len(),
{
    let whole = frame(payload) + rest;
    if head.len() >= frame(payload).len() {
        let more = head.skip(frame(payload).len() as int);
        assert(head =~= frame(payload) + more) by {
            assert forall|i: int| 0 <= i < frame(payload).len() implies head[i] == frame(payload)[i] by {
                assert(whole[i] == (head + stream(records))[i]);
            }
        }
        law_frame_reads_back(payload, more);
        assert(more + stream(records) =~= rest) by {
            assert(more + stream(records) =~= whole.skip(frame(payload).len() as int)) by {
                assert(whole =~= head + stream(records));
            }
            assert(whole.skip(frame(payload).len() as int) =~= rest);
        }
    } else {
        assert(head =~= frame(payload).take(head.len() as int)) by {
            assert forall|i: int| 0 <= i < head.len() implies head[i] == frame(payload)[i] by {
                assert(whole[i] == (head + stream(records))[i]);
            }
        }
        law_partial_frame_waits(payload, head.len() as int);
        assert(records.len() > 0) by {
            if records.len() == 0 {
                assert(head + stream(records) =~= head);
            }
        }
        assert((head + records[0]) + stream(records.drop_first()) =~= head + stream(records));
        law_fragmented_frame_reassembles(payload, rest, head + records[0], records.drop_first());
    }
}

/// The frames of payloads, end to end.
pub open spec fn frames(payloads: Seq<Seq<u8>>) -> Seq<u8>
    decreases payloads.len(),
{
    if payloads.len() == 0 {
        Seq::empty()
    } else {
        frame(payloads[0]) + frames(payloads.drop_first())
    }
}

/// What reading `n` messages one after the other gives.
pub open spec fn receive_each(b: Seq<u8>, records: Seq<Seq<u8>>, n: nat) -> Seq<
    Result<Option<Seq<u8>>, FrameError>,
>
    decreases n,
{
    if n == 0 {
        Seq::empty()
    } else {
        let got = receive(b, records);
        seq![got.result] + receive_each(got.buffer, got.records, (n - 1) as nat)
    }
}

/// However many frames are cut into records, and wherever the cuts lie, their payloads come out
/// whole and in order.
pub proof fn law_frames_come_out_in_order(
    payloads: Seq<Seq<u8>>,
    head: Seq<u8>,
    records: Seq<Seq<u8>>,
)
    requires
        forall|i: int| 0 <= i < payloads.len() ==> (#[trigger] payloads[i]).len() <= MAX_FRAME_SIZE,
        head + stream(records) == frames(payloads),
    ensures
        receive_each(head, records, payloads.len()) == payloads.map_values(
            |p: Seq<u8>| Ok::<Option<Seq<u8>>, FrameError>(Some(p)),
        ),
    decreases payloads.len(),
{
    let results = payloads.map_values(|p: Seq<u8>| Ok::<Option<Seq<u8>>, FrameError>(Some(p)));
    if payloads.len() > 0 {
        let more = payloads.drop_first();
        law_fragmented_frame_reassembles(payloads[0], frames(more), head, records);
        let got = receive(head, records);
        assert forall|i: int| 0 <= i < more.len() implies (#[trigger] more[i]).len()
            <= MAX_FRAME_SIZE by {
            assert(more[i] == payloads[i + 1]);
        }
        law_frames_come_out_in_order(more, got.buffer, got.records);
        assert(receive_each(head, records, payloads.len()) =~= results);
    } else {
        assert(receive_each(head, records, payloads.len()) =~= results);
    }
}

/// A length over the limit is refused, whatever follows it, and the buffer keeps its bytes.
pub proof fn law_oversized_frame_refused(b: Seq<u8>, records: Seq<Seq<u8>>)
    requires
        b.len() >= 4,
        announced(b) > MAX_FRAME_SIZE,
    ensures
        receive(b, records) == (Received {
            result: Err(FrameError::TooLarge(announced(b) as u32)),
            buffer: b,
            records,
        }),
{
}

/// One record that holds one frame gives the payload.
pub proof fn law_record_reads_back(payload: Seq<u8>, rest: Seq<u8>)
    requires
        payload.len() < 0x100000000,
    ensures
        record_payload(frame(payload) + rest) == Ok::<Seq<u8>, FrameError>(payload),
{
    lemma_announced(payload, rest);
    assert((frame(payload) + rest).subrange(4, 4 + payload.len() as int) =~= payload);
}

/// On the wire a frame is the length of its payload in four bytes, the most significant first, and
/// then the payload as it is.
pub proof fn law_frame_on_the_wire(payload: Seq<u8>)
    requires
        payload.len() < 0x100000000,
    ensures
        ({
            let f = frame(payload);
            &&& f.len() == payload.len() + 4
            &&& f[0] * 16777216 + f[1] * 65536 + f[2] * 256 + f[3] == payload.len()
            &&& f.skip(4) == payload
        }),
{
    lemma_announced(payload, Seq::empty());
    assert(frame(payload) + Seq::<u8>::empty() =~= frame(payload));
    assert(frame(payload).skip(4) =~= payload);
}

/// A buffer gives its first payload exactly if the four length bytes and that many bytes after them
/// are there, the payload is no longer than four megabytes, and what follows stays. A longer one is
/// refused as soon as its length is there. Until then nothing is given.
pub proof fn law_buffer_gives_what_its_length_says(b: Seq<u8>)
    ensures
        ({
            let n = b[0] * 16777216 + b[1] * 65536 + b[2] * 256 + b[3];
            &&& b.len() < 4 ==> next_frame(b) == Ok::<Option<(Seq<u8>, Seq<u8>)>, FrameError>(None)
            &&& b.len() >= 4 && n > 4194304 ==> next_frame(b) is Err
            &&& b.len() >= 4 && n <= 4194304 && b.len() < 4 + n ==> next_frame(b) == Ok::<
                Option<(Seq<u8>, Seq<u8>)>,
                FrameError,
            >(None)
            &&& b.len() >= 4 && n <= 4194304 && b.len() >= 4 + n ==> (next_frame(b) matches Ok(
                Some((payload, rest)),
            ) && payload.len() == n && b == b.take(4) + payload + rest)
        }),
{
    let n = announced(b);
    if b.len() >= 4 && n <= 4194304 && b.len() >= 4 + n {
        assert(b =~= b.take(4) + b.subrange(4, 4 + n) + b.skip(4 + n));
    }
}

/// A record that ends before its frame does is refused; what follows the frame plays no part.
pub proof fn law_cut_record_is_refused(payload: Seq<u8>, k: int)
    requires
        payload.len() < 0x100000000,
        0 <= k < payload.len() + 4,
    ensures
        record_payload(frame(payload).take(k)) is Err,
        k < 4 ==> record_payload(frame(payload).take(k)) == Err::<Seq<u8>, FrameError>(
            FrameError::TooShort,
        ),
        k >= 4 ==> record_payload(frame(payload).take(k)) == Err::<Seq<u8>, FrameError>(
            FrameError::Incomplete,
        ),
{
    lemma_announced(payload, Seq::empty());
    assert(frame(payload) + Seq::<u8>::empty() =~= frame(payload));
    if k >= 4 {
        assert(announced(frame(payload).take(k)) == announced(frame(payload)));
    }
}

/// While no frame is complete, every byte of every record stays in the buffer, in order.
pub proof fn law_waiting_keeps_every_byte(b: Seq<u8>, records: Seq<Seq<u8>>)
    requires
        receive(b, records).result == Ok::<Option<Seq<u8>>, FrameError>(None),
    ensures
        receive(b, records).buffer == b + stream(records),
        receive(b, records).records.len() == 0,
    decreases records.len(),
{
    if records.len() == 0 {
        assert(b + stream(records) =~= b);
    } else {
        law_waiting_keeps_every_byte(b + records[0], records.drop_first());
        assert((b + records[0]) + stream(records.drop_first()) =~= b + stream(records));
    }
}

} // verus!
