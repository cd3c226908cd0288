//! The envelope around every message: `[id: u32][length: u32][payload]`, and
//! the one place where a payload is told apart by its identity.
use vstd::prelude::*;
use crate::directory::{decode_directory_offer, DirectoryOfferModel, DirectoryOfferPacket};
use crate::packet::{
    decode_file_chunk, decode_file_offer, decode_u64_payload, DecodeError, FileChunkModel,
    FileOfferModel, FileOfferPacket, FilePacket, PingPacket, SpeedPacket, SpeedtestInfoPacket,
};
use crate::upload::{decode_begin_upload, BeginUploadModel, BeginUploadPacket};
use crate::wire::{be32, get_u32, lemma_be32_round_trip, push_bytes, push_u32, read_be32};

verus! {

/// The bytes of a frame.
pub open spec fn encode_frame(id: u32, payload: Seq<u8>) -> Seq<u8> {
    be32(id) + be32(payload.len() as u32) + payload
}

/// Appends the frame of `payload` under `id` to `out`.
pub fn write_frame(id: u32, payload: &[u8], out: &mut Vec<u8>)
    requires
        payload@.len() <= u32::MAX,
    ensures
        final(out)@ == old(out)@ + encode_frame(id, payload@),
{
    push_u32(out, id);
    push_u32(out, payload.len() as u32);
    push_bytes(out, payload);
    assert(final(out)@ =~= old(out)@ + encode_frame(id, payload@));
}

/// The identity and the payload length that the 8 header bytes hold.
pub fn read_frame_header(header: &[u8]) -> (r: (u32, u32))
    requires
        header@.len() >= 8,
    ensures
        r == (read_be32(header@, 0), read_be32(header@, 4)),
{
    (get_u32(header, 0), get_u32(header, 4))
}

/// A frame's header gives back its identity and its payload's length, and the
/// payload follows it.
pub proof fn lemma_frame_header(id: u32, payload: Seq<u8>)
    requires
        payload.len() <= u32::MAX,
    ensures
        encode_frame(id, payload).len() == 8 + payload.len(),
        read_be32(encode_frame(id, payload), 0) == id,
        read_be32(encode_frame(id, payload), 4) == payload.len(),
        encode_frame(id, payload).skip(8) == payload,
{
    let len = be32(payload.len() as u32);
    let b = encode_frame(id, payload);
    lemma_be32_round_trip(id, Seq::empty(), len + payload);
    assert(Seq::<u8>::empty() + be32(id) + (len + payload) =~= b);
    lemma_be32_round_trip(payload.len() as u32, be32(id), payload);
    assert(b.skip(8) =~= payload);
}

/// Why a frame could not be read as a message.
#[derive(Debug, Clone, Copy, PartialEq, Eq, Structural)]
pub enum FrameError {
    Decode(DecodeError),
    UnknownId(u32),
}

/// Every message of the protocol.
pub enum Message<'a> {
    FileOffer(FileOfferPacket),
    DirectoryOffer(DirectoryOfferPacket),
    BeginUpload(BeginUploadPacket),
    FileChunk(FilePacket<'a>),
    Ping(PingPacket),
    Speed(SpeedPacket<'a>),
    SpeedtestSync(SpeedtestInfoPacket),
}

impl<'a> Message<'a> {
    /// The identity under which this message travels.
    pub fn id(&self) -> (r: u32)
        ensures
            r == match self {
                Message::FileOffer(_) => FileOfferPacket::ID,
                Message::DirectoryOffer(_) => DirectoryOfferPacket::ID,
                Message::BeginUpload(_) => BeginUploadPacket::ID,
                Message::FileChunk(_) => FilePacket::ID,
                Message::Ping(_) => PingPacket::ID,
                Message::Speed(_) => SpeedPacket::ID,
                Message::SpeedtestSync(_) => SpeedtestInfoPacket::ID,
            },
    {
        match self {
            Message::FileOffer(_) => FileOfferPacket::ID,
            Message::DirectoryOffer(_) => DirectoryOfferPacket::ID,
            Message::BeginUpload(_) => BeginUploadPacket::ID,
            Message::FileChunk(_) => FilePacket::ID,
            Message::Ping(_) => PingPacket::ID,
            Message::Speed(_) => SpeedPacket::ID,
            Message::SpeedtestSync(_) => SpeedtestInfoPacket::ID,
        }
    }

    /// Decodes the payload of a frame by the frame's identity.
    pub fn decode(id: u32, payload: &'a [u8]) -> (r: Result<Message<'a>, FrameError>)
        ensures
            id == FileOfferPacket::ID ==> match r {
                Ok(Message::FileOffer(p)) => decode_file_offer(payload@) == Ok::<
                    FileOfferModel,
                    DecodeError,
                >(p@),
                Err(FrameError::Decode(e)) => decode_file_offer(payload@) == Err::<
                    FileOfferModel,
                    DecodeError,
                >(e),
                _ => false,
            },
            id == DirectoryOfferPacket::ID ==> match r {
                Ok(Message::DirectoryOffer(p)) => decode_directory_offer(payload@) == Ok::<
                    DirectoryOfferModel,
                    DecodeError,
                >(p@),
                Err(FrameError::Decode(e)) => decode_directory_offer(payload@) == Err::<
                    DirectoryOfferModel,
                    DecodeError,
                >(e),
                _ => false,
            },
            id == BeginUploadPacket::ID ==> match r {
                Ok(Message::BeginUpload(p)) => decode_begin_upload(payload@) == Ok::<
                    BeginUploadModel,
                    DecodeError,
                >(p@),
                Err(FrameError::Decode(e)) => decode_begin_upload(payload@) == Err::<
                    BeginUploadModel,
                    DecodeError,
                >(e),
                _ => false,
            },
            id == FilePacket::ID ==> match r {
                Ok(Message::FileChunk(p)) => decode_file_chunk(payload@) == Ok::<
                    FileChunkModel,
                    DecodeError,
                >(p@),
                Err(FrameError::Decode(e)) => decode_file_chunk(payload@) == Err::<
                    FileChunkModel,
                    DecodeError,
                >(e),
                _ => false,
            },
            id == PingPacket::ID ==> match r {
                Ok(Message::Ping(p)) => decode_u64_payload(payload@) == Ok::<u64, DecodeError>(
                    p.creation_time,
                ),
                Err(FrameError::Decode(e)) => decode_u64_payload(payload@) == Err::<
                    u64,
                    DecodeError,
                >(e),
                _ => false,
            },
            id == SpeedPacket::ID ==> (r matches Ok(Message::Speed(p)) && p.random_bytes == payload),
            id == SpeedtestInfoPacket::ID ==> match r {
                Ok(Message::SpeedtestSync(p)) => decode_u64_payload(payload@) == Ok::<
                    u64,
                    DecodeError,
                >(p.start_time),
                Err(FrameError::Decode(e)) => decode_u64_payload(payload@) == Err::<
                    u64,
                    DecodeError,
                >(e),
                _ => false,
            },
            id != FileOfferPacket::ID && id != DirectoryOfferPacket::ID && id
                != BeginUploadPacket::ID && id != FilePacket::ID && id != PingPacket::ID && id
                != SpeedPacket::ID && id != SpeedtestInfoPacket::ID ==> r == Err::<
                Message<'a>,
                FrameError,
            >(FrameError::UnknownId(id)),
    {
        if id == FileOfferPacket::ID {
            match FileOfferPacket::construct(payload) {
                Ok(p) => Ok(Message::FileOffer(p)),
                Err(e) => Err(FrameError::Decode(e)),
            }
        } else if id == DirectoryOfferPacket::ID {
            match DirectoryOfferPacket::from_bytes(payload) {
                Ok(p) => Ok(Message::DirectoryOffer(p)),
                Err(e) => Err(FrameError::Decode(e)),
            }
        } else if id == BeginUploadPacket::ID {
            match BeginUploadPacket::from_bytes(payload) {
                Ok(p) => Ok(Message::BeginUpload(p)),
                Err(e) => Err(FrameError::Decode(e)),
            }
        } else if id == FilePacket::ID {
            match FilePacket::wrap(payload) {
                Ok(p) => Ok(Message::FileChunk(p)),
                Err(e) => Err(FrameError::Decode(e)),
            }
        } else if id == PingPacket::ID {
            match PingPacket::from_bytes(payload) {
                Ok(p) => Ok(Message::Ping(p)),
                Err(e) => Err(FrameError::Decode(e)),
            }
        } else if id == SpeedPacket::ID {
            Ok(Message::Speed(SpeedPacket::new(payload)))
        } else if id == SpeedtestInfoPacket::ID {
            match SpeedtestInfoPacket::from_bytes(payload) {
                Ok(p) => Ok(Message::SpeedtestSync(p)),
                Err(e) => Err(FrameError::Decode(e)),
            }
        } else {
            Err(FrameError::UnknownId(id))
        }
    }
}

/// A payload shorter than a message's fixed fields is rejected as truncated,
/// whatever its bytes.
pub proof fn lemma_short_payloads_rejected(b: Seq<u8>)
    ensures
        b.len() < 16 ==> decode_file_offer(b) == Err::<FileOfferModel, DecodeError>(
            DecodeError::Truncated,
        ),
        b.len() < 16 ==> decode_file_chunk(b) == Err::<FileChunkModel, DecodeError>(
            DecodeError::Truncated,
        ),
        b.len() < 12 ==> decode_begin_upload(b) == Err::<BeginUploadModel, DecodeError>(
            DecodeError::Truncated,
        ),
        b.len() < 24 ==> decode_directory_offer(b) == Err::<DirectoryOfferModel, DecodeError>(
            DecodeError::Truncated,
        ),
        b.len() < 8 ==> decode_u64_payload(b) == Err::<u64, DecodeError>(DecodeError::Truncated),
{
}

} // verus!
