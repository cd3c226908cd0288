//! Payload codecs of the protocol's messages.
//!
//! Each message knows its identity, the length of its payload, how to append
//! that payload to a buffer and how to rebuild itself from one. The layouts are
//! stated by the `encode_*` spec functions, and the decoders by the `decode_*`
//! spec functions; all integers are big-endian.
use vstd::prelude::*;
use vstd::slice::slice_subrange;
use vstd::utf8::{decode_utf8, encode_utf8, encode_utf8_decode_utf8, encode_utf8_valid_utf8, valid_utf8};
use crate::wire::{
    be32, be64, get_u64, lemma_be64_round_trip, push_bytes, push_u32, push_u64, read_be64,
};

verus! {

pub const KB_125: usize = 128000;

pub const KB_512: usize = 524288;

pub const MB_1: usize = 1048576;

pub const MB_2: usize = 2097152;

pub const MB_100: usize = 20971520;

/// Why a payload could not be decoded.
#[derive(Debug, Clone, Copy, PartialEq, Eq, Structural)]
pub enum DecodeError {
    /// The payload ends before a field that it must hold.
    Truncated,
    /// A string field is not valid UTF-8.
    Utf8,
}

/// A message of the protocol: the identity it travels under and its payload.
pub trait Packet {
    /// The identity of the message's kind.
    spec fn identity(&self) -> u32;

    /// The payload bytes.
    spec fn payload(&self) -> Seq<u8>;

    /// The message's counts agree with what they count, so that it can be
    /// written.
    spec fn writable(&self) -> bool;

    fn id(&self) -> (r: u32)
        ensures
            r == self.identity(),
    ;

    /// The length of the payload that [`Packet::write`] appends.
    fn size(&self) -> (r: u32)
        requires
            self.writable(),
            self.payload().len() <= u32::MAX,
        ensures
            r == self.payload().len(),
    ;

    /// Appends the payload to `out`.
    fn write(&self, out: &mut Vec<u8>)
        requires
            self.writable(),
        ensures
            final(out)@ == old(out)@ + self.payload(),
    ;

    /// Appends the frame header, identity then payload length, to `out`.
    fn write_header(&self, out: &mut Vec<u8>)
        requires
            self.writable(),
            self.payload().len() <= u32::MAX,
        ensures
            final(out)@ == old(out)@ + be32(self.identity()) + be32(self.payload().len() as u32),
    {
        let id = self.id();
        let size = self.size();
        push_u32(out, id);
        push_u32(out, size);
    }
}

/// Relies on `String::from_utf8`: it succeeds exactly on valid UTF-8, and the
/// string then holds those very bytes.
#[verifier::external_body]
fn string_from_utf8(b: Vec<u8>) -> (r: Option<String>)
    ensures
        r is Some <==> valid_utf8(b@),
        r matches Some(s) ==> encode_utf8(s@) == b@,
{
    String::from_utf8(b).ok()
}

/// Decodes `b[start .. end]` as UTF-8.
pub(crate) fn utf8_string(b: &[u8], start: usize, end: usize) -> (r: Option<String>)
    requires
        start <= end <= b@.len(),
    ensures
        r is Some <==> valid_utf8(b@.subrange(start as int, end as int)),
        r matches Some(s) ==> s@ == decode_utf8(b@.subrange(start as int, end as int)),
{
    let bytes = crate::wire::copy_range(b, start, end);
    let r = string_from_utf8(bytes);
    proof {
        if r is Some {
            encode_utf8_decode_utf8(r->0@);
        }
    }
    r
}

/// The UTF-8 length of `s`.
pub fn utf8_len(s: &String) -> (r: usize)
    ensures
        r == encode_utf8(s@).len(),
{
    s.as_str().as_bytes().len()
}

/// Appends the UTF-8 bytes of `s` to `out`.
pub(crate) fn push_str(out: &mut Vec<u8>, s: &String)
    ensures
        final(out)@ == old(out)@ + encode_utf8(s@),
{
    push_bytes(out, s.as_str().as_bytes());
}

// ---------------------------------------------------------------- FileOffer

/// What a [`FileOfferPacket`] holds.
pub struct FileOfferModel {
    pub transaction_id: u64,
    pub file_size: u64,
    pub file_name: Seq<char>,
}

/// Announces one file that the sender can transfer.
pub struct FileOfferPacket {
    pub transaction_id: u64,
    /// in bytes
    pub file_size: u64,
    pub file_name: String,
}

impl View for FileOfferPacket {
    type V = FileOfferModel;

    open spec fn view(&self) -> FileOfferModel {
        FileOfferModel {
            transaction_id: self.transaction_id,
            file_size: self.file_size,
            file_name: self.file_name@,
        }
    }
}

/// `transaction_id`, `file_size`, then the name's UTF-8 bytes up to the end.
pub open spec fn encode_file_offer(m: FileOfferModel) -> Seq<u8> {
    be64(m.transaction_id) + be64(m.file_size) + encode_utf8(m.file_name)
}

pub open spec fn decode_file_offer(b: Seq<u8>) -> Result<FileOfferModel, DecodeError> {
    if b.len() < 16 {
        Err(DecodeError::Truncated)
    } else if !valid_utf8(b.skip(16)) {
        Err(DecodeError::Utf8)
    } else {
        Ok(
            FileOfferModel {
                transaction_id: read_be64(b, 0),
                file_size: read_be64(b, 8),
                file_name: decode_utf8(b.skip(16)),
            },
        )
    }
}

/// Decoding an encoded file offer gives it back.
pub proof fn lemma_file_offer_round_trip(m: FileOfferModel)
    ensures
        decode_file_offer(encode_file_offer(m)) == Ok::<FileOfferModel, DecodeError>(m),
{
    let name = encode_utf8(m.file_name);
    let b = encode_file_offer(m);
    lemma_be64_round_trip(m.transaction_id, Seq::empty(), be64(m.file_size) + name);
    lemma_be64_round_trip(m.file_size, be64(m.transaction_id), name);
    assert(Seq::<u8>::empty() + be64(m.transaction_id) + (be64(m.file_size) + name) =~= b);
    assert(b.skip(16) =~= name);
    encode_utf8_valid_utf8(m.file_name);
    encode_utf8_decode_utf8(m.file_name);
    assert(decode_file_offer(b) matches Ok(d) && d == m);
}

impl FileOfferPacket {
    pub const ID: u32 = 100_000;

    pub fn new(transaction_id: u64, file_size: u64, file_name: String) -> (r: Self)
        ensures
            r.transaction_id == transaction_id,
            r.file_size == file_size,
            r.file_name == file_name,
    {
        Self { transaction_id, file_size, file_name }
    }

    /// Rebuilds an offer from its payload.
    pub fn construct(field_bytes: &[u8]) -> (r: Result<Self, DecodeError>)
        ensures
            match r {
                Ok(p) => decode_file_offer(field_bytes@) == Ok::<FileOfferModel, DecodeError>(p@),
                Err(e) => decode_file_offer(field_bytes@) == Err::<FileOfferModel, DecodeError>(e),
            },
    {
        if field_bytes.len() < 16 {
            return Err(DecodeError::Truncated);
        }
        let transaction_id = get_u64(field_bytes, 0);
        let file_size = get_u64(field_bytes, 8);
        assert(field_bytes@.subrange(16, field_bytes@.len() as int) =~= field_bytes@.skip(16));
        match utf8_string(field_bytes, 16, field_bytes.len()) {
            Some(file_name) => Ok(Self::new(transaction_id, file_size, file_name)),
            None => Err(DecodeError::Utf8),
        }
    }
}

impl Packet for FileOfferPacket {
    open spec fn identity(&self) -> u32 {
        FileOfferPacket::ID
    }

    open spec fn payload(&self) -> Seq<u8> {
        encode_file_offer(self@)
    }

    open spec fn writable(&self) -> bool {
        true
    }

    fn id(&self) -> u32 {
        Self::ID
    }

    /// The length of the payload that [`Self::write`] appends.
    fn size(&self) -> u32 {
        (16 + utf8_len(&self.file_name)) as u32
    }

    /// Appends the payload to `out`.
    fn write(&self, out: &mut Vec<u8>) {
        push_u64(out, self.transaction_id);
        push_u64(out, self.file_size);
        push_str(out, &self.file_name);
        assert(final(out)@ =~= old(out)@ + encode_file_offer(self@));
    }
}

// ---------------------------------------------------------------- FileChunk

/// What a [`FilePacket`] holds.
pub struct FileChunkModel {
    pub transaction_id: u64,
    pub chunk_id: u64,
    pub file_bytes: Seq<u8>,
}

/// One slice of a file's content.
pub struct FilePacket<'r> {
    pub transaction_id: u64,
    /// counts from 0 in each transfer, also one that resumes
    pub chunk_id: u64,
    pub file_bytes: &'r [u8],
}

impl<'r> View for FilePacket<'r> {
    type V = FileChunkModel;

    open spec fn view(&self) -> FileChunkModel {
        FileChunkModel {
            transaction_id: self.transaction_id,
            chunk_id: self.chunk_id,
            file_bytes: self.file_bytes@,
        }
    }
}

/// `transaction_id`, `chunk_id`, then the content up to the end.
pub open spec fn encode_file_chunk(m: FileChunkModel) -> Seq<u8> {
    be64(m.transaction_id) + be64(m.chunk_id) + m.file_bytes
}

pub open spec fn decode_file_chunk(b: Seq<u8>) -> Result<FileChunkModel, DecodeError> {
    if b.len() < 16 {
        Err(DecodeError::Truncated)
    } else {
        Ok(
            FileChunkModel {
                transaction_id: read_be64(b, 0),
                chunk_id: read_be64(b, 8),
                file_bytes: b.skip(16),
            },
        )
    }
}

/// Decoding an encoded chunk gives it back.
pub proof fn lemma_file_chunk_round_trip(m: FileChunkModel)
    ensures
        decode_file_chunk(encode_file_chunk(m)) == Ok::<FileChunkModel, DecodeError>(m),
{
    let b = encode_file_chunk(m);
    lemma_be64_round_trip(m.transaction_id, Seq::empty(), be64(m.chunk_id) + m.file_bytes);
    lemma_be64_round_trip(m.chunk_id, be64(m.transaction_id), m.file_bytes);
    assert(Seq::<u8>::empty() + be64(m.transaction_id) + (be64(m.chunk_id) + m.file_bytes) =~= b);
    assert(b.skip(16) =~= m.file_bytes);
    assert(decode_file_chunk(b) matches Ok(d) && d == m);
}

impl<'r> FilePacket<'r> {
    pub const ID: u32 = 200_000;

    pub fn new(transaction_id: u64, chunk_id: u64, content: &'r [u8]) -> (r: Self)
        ensures
            r.transaction_id == transaction_id,
            r.chunk_id == chunk_id,
            r.file_bytes == content,
    {
        Self { transaction_id, chunk_id, file_bytes: content }
    }

    /// Reads a chunk from its payload; the content stays in `field_bytes`.
    pub fn wrap(field_bytes: &'r [u8]) -> (r: Result<Self, DecodeError>)
        ensures
            match r {
                Ok(p) => decode_file_chunk(field_bytes@) == Ok::<FileChunkModel, DecodeError>(p@),
                Err(e) => decode_file_chunk(field_bytes@) == Err::<FileChunkModel, DecodeError>(e),
            },
    {
        let length = field_bytes.len();
        if length < 16 {
            return Err(DecodeError::Truncated);
        }
        let transaction_id = get_u64(field_bytes, 0);
        let chunk_id = get_u64(field_bytes, 8);
        let file_bytes = slice_subrange(field_bytes, 16, length);
        assert(file_bytes@ =~= field_bytes@.skip(16));
        Ok(Self::new(transaction_id, chunk_id, file_bytes))
    }
}

impl<'r> Packet for FilePacket<'r> {
    open spec fn identity(&self) -> u32 {
        FilePacket::ID
    }

    open spec fn payload(&self) -> Seq<u8> {
        encode_file_chunk(self@)
    }

    open spec fn writable(&self) -> bool {
        true
    }

    fn id(&self) -> u32 {
        Self::ID
    }

    /// The length of the payload that [`Self::write`] appends.
    fn size(&self) -> u32 {
        (16 + self.file_bytes.len()) as u32
    }

    /// Appends the payload to `out`.
    fn write(&self, out: &mut Vec<u8>) {
        push_u64(out, self.transaction_id);
        push_u64(out, self.chunk_id);
        push_bytes(out, self.file_bytes);
        assert(final(out)@ =~= old(out)@ + encode_file_chunk(self@));
    }
}

// ---------------------------------------------------------------- Speed

/// Filler whose only use is to measure throughput; its payload is its bytes.
pub struct SpeedPacket<'r> {
    pub random_bytes: &'r [u8],
}

impl<'r> SpeedPacket<'r> {
    pub const ID: u32 = 300_000;

    pub fn new(random_bytes: &'r [u8]) -> (r: Self)
        ensures
            r.random_bytes == random_bytes,
    {
        Self { random_bytes }
    }

    /// Any payload is a speed packet.
    pub fn wrap(field_bytes: &'r [u8]) -> (r: Result<Self, DecodeError>)
        ensures
            r matches Ok(p) && p.random_bytes == field_bytes,
    {
        Ok(Self::new(field_bytes))
    }
}

impl<'r> Packet for SpeedPacket<'r> {
    open spec fn identity(&self) -> u32 {
        SpeedPacket::ID
    }

    open spec fn payload(&self) -> Seq<u8> {
        self.random_bytes@
    }

    open spec fn writable(&self) -> bool {
        true
    }

    fn id(&self) -> u32 {
        Self::ID
    }

    fn size(&self) -> u32 {
        self.random_bytes.len() as u32
    }

    /// Appends the payload to `out`.
    fn write(&self, out: &mut Vec<u8>) {
        push_bytes(out, self.random_bytes);
    }
}

// ---------------------------------------------------------------- one timestamp

/// The payload of a message that holds one `u64`, and of nothing else.
pub open spec fn decode_u64_payload(b: Seq<u8>) -> Result<u64, DecodeError> {
    if b.len() < 8 {
        Err(DecodeError::Truncated)
    } else {
        Ok(read_be64(b, 0))
    }
}

/// Decoding the eight bytes of `x` gives `x`.
pub proof fn lemma_u64_payload_round_trip(x: u64)
    ensures
        decode_u64_payload(be64(x)) == Ok::<u64, DecodeError>(x),
{
    lemma_be64_round_trip(x, Seq::empty(), Seq::empty());
    assert(Seq::<u8>::empty() + be64(x) + Seq::<u8>::empty() =~= be64(x));
}

fn read_u64_payload(field_bytes: &[u8]) -> (r: Result<u64, DecodeError>)
    ensures
        r == decode_u64_payload(field_bytes@),
{
    if field_bytes.len() < 8 {
        Err(DecodeError::Truncated)
    } else {
        Ok(get_u64(field_bytes, 0))
    }
}

/// The start of a speed test that both peers agree on.
pub struct SpeedtestInfoPacket {
    /// future unix time in milliseconds: when reading and writing begin
    pub start_time: u64,
}

impl SpeedtestInfoPacket {
    pub const ID: u32 = 400_000;

    pub fn new_with_start(start: u64) -> (r: Self)
        ensures
            r.start_time == start,
    {
        Self { start_time: start }
    }

    /// The start time that a payload carries; `Truncated` for a payload
    /// shorter than 8 bytes.
    pub fn get_start_time(field_bytes: &[u8]) -> (r: Result<u64, DecodeError>)
        ensures
            r == decode_u64_payload(field_bytes@),
    {
        read_u64_payload(field_bytes)
    }

    /// Rebuilds the packet from its payload.
    pub fn from_bytes(field_bytes: &[u8]) -> (r: Result<Self, DecodeError>)
        ensures
            match r {
                Ok(p) => decode_u64_payload(field_bytes@) == Ok::<u64, DecodeError>(p.start_time),
                Err(e) => decode_u64_payload(field_bytes@) == Err::<u64, DecodeError>(e),
            },
    {
        match read_u64_payload(field_bytes) {
            Ok(start) => Ok(Self::new_with_start(start)),
            Err(e) => Err(e),
        }
    }
}

impl Packet for SpeedtestInfoPacket {
    open spec fn identity(&self) -> u32 {
        SpeedtestInfoPacket::ID
    }

    open spec fn payload(&self) -> Seq<u8> {
        be64(self.start_time)
    }

    open spec fn writable(&self) -> bool {
        true
    }

    fn id(&self) -> u32 {
        Self::ID
    }

    fn size(&self) -> u32 {
        8
    }

    /// Appends the payload to `out`.
    fn write(&self, out: &mut Vec<u8>) {
        push_u64(out, self.start_time);
    }
}
/// Relies on `SystemTime::now` and `duration_since(UNIX_EPOCH)`: the wall clock
/// in milliseconds since the epoch, 0 for a clock set before it. Nothing is
/// known of its value.
#[verifier::external_body]
pub fn epoch_time_now() -> u64 {
    match std::time::SystemTime::now().duration_since(std::time::SystemTime::UNIX_EPOCH) {
        Ok(elapsed) => elapsed.as_millis() as u64,
        Err(_) => 0,
    }
}

/// Carries the moment it was made, to measure latency.
pub struct PingPacket {
    /// unix time in milliseconds when the packet was made
    pub creation_time: u64,
}

/// Milliseconds from `sent` to `now`, as the two's complement difference of
/// their signed readings.
pub open spec fn millis_between(now: u64, sent: u64) -> i64 {
    (now as i64).wrapping_sub(sent as i64)
}

impl PingPacket {
    pub const ID: u32 = 500_000;

    /// A ping stamped with the current time.
    pub fn new_ping() -> (r: Self) {
        Self { creation_time: epoch_time_now() }
    }

    pub fn new_with_time(creation_time: u64) -> (r: Self)
        ensures
            r.creation_time == creation_time,
    {
        Self { creation_time }
    }

    /// Milliseconds from the time in the payload to `now`; `Truncated` for a
    /// payload shorter than 8 bytes.
    pub fn millis_since(now: u64, field_bytes: &[u8]) -> (r: Result<i64, DecodeError>)
        ensures
            field_bytes@.len() < 8 ==> r == Err::<i64, DecodeError>(DecodeError::Truncated),
            field_bytes@.len() >= 8 ==> r == Ok::<i64, DecodeError>(
                millis_between(now, read_be64(field_bytes@, 0)),
            ),
    {
        match read_u64_payload(field_bytes) {
            Ok(sent) => {
                let time_sent = #[verifier::truncate] (sent as i64);
                Ok((#[verifier::truncate] (now as i64)).wrapping_sub(time_sent))
            },
            Err(e) => Err(e),
        }
    }

    /// Milliseconds from the time in the payload to the clock's present
    /// reading; `Truncated` for a payload shorter than 8 bytes. The time
    /// itself is read from the clock, so only the error is stated here; the
    /// arithmetic is [`Self::millis_since`].
    pub fn millis_taken(field_bytes: &[u8]) -> (r: Result<i64, DecodeError>)
        ensures
            field_bytes@.len() < 8 <==> r == Err::<i64, DecodeError>(DecodeError::Truncated),
            r is Err ==> field_bytes@.len() < 8,
    {
        let now = epoch_time_now();
        Self::millis_since(now, field_bytes)
    }

    /// Rebuilds the packet from its payload.
    pub fn from_bytes(field_bytes: &[u8]) -> (r: Result<Self, DecodeError>)
        ensures
            match r {
                Ok(p) => decode_u64_payload(field_bytes@) == Ok::<u64, DecodeError>(p.creation_time),
                Err(e) => decode_u64_payload(field_bytes@) == Err::<u64, DecodeError>(e),
            },
    {
        match read_u64_payload(field_bytes) {
            Ok(t) => Ok(Self::new_with_time(t)),
            Err(e) => Err(e),
        }
    }
}

impl Packet for PingPacket {
    open spec fn identity(&self) -> u32 {
        PingPacket::ID
    }

    open spec fn payload(&self) -> Seq<u8> {
        be64(self.creation_time)
    }

    open spec fn writable(&self) -> bool {
        true
    }

    fn id(&self) -> u32 {
        Self::ID
    }

    fn size(&self) -> u32 {
        8
    }

    /// Appends the payload to `out`.
    fn write(&self, out: &mut Vec<u8>) {
        push_u64(out, self.creation_time);
    }
}

} // verus!
