//! The packet that carries one input from peer to peer: the number of the
//! frame, low byte first, and then the input byte.

use crate::input::BoxInput;
use vstd::prelude::*;
use vstd::slice::slice_subrange;

verus! {

/// The length of a packet, in bytes.
pub const PACKET_LEN: usize = 5;

/// What is wrong with a packet that cannot be read.
#[derive(Clone, Copy, Debug, PartialEq, Eq, Structural)]
pub enum PacketError {
    /// The packet is not five bytes long.
    WrongLength,
}

/// The error of `bytemuck`'s checked casts. It is handed through unread.
#[verifier::external_type_specification]
#[verifier::external_body]
pub struct ExPodCastError(bytemuck::PodCastError);

/// The bytes of the input byte as plain data, by `bytemuck::bytes_of`. A
/// byte is its own single byte.
#[verifier::external_body]
fn pod_bytes(byte: u8) -> (bytes: Vec<u8>)
    ensures
        bytes@ == seq![byte],
{
    bytemuck::bytes_of(&byte).to_vec()
}

/// The input byte that `bytes` are the plain data of, by
/// `bytemuck::try_from_bytes`. It is there when `bytes` has just the size of
/// one byte, and then it is that byte; a byte has no alignment to miss.
#[verifier::external_body]
fn pod_from_bytes(bytes: &[u8]) -> (byte: Result<u8, bytemuck::PodCastError>)
    ensures
        byte is Ok <==> bytes@.len() == 1,
        byte is Ok ==> byte->Ok_0 == bytes@[0],
{
    bytemuck::try_from_bytes::<u8>(bytes).copied()
}

/// The four bytes of a frame number, low byte first.
pub open spec fn frame_bytes(frame_number: u32) -> Seq<u8> {
    seq![
        (frame_number % 256) as u8,
        (frame_number / 256 % 256) as u8,
        (frame_number / 65536 % 256) as u8,
        (frame_number / 16777216) as u8,
    ]
}

/// The frame number that the first four of `bytes` stand for.
pub open spec fn frame_of(bytes: Seq<u8>) -> int
    recommends
        bytes.len() >= 4,
{
    bytes[0] + 256 * bytes[1] + 65536 * bytes[2] + 16777216 * bytes[3]
}

/// The packet of an input for a frame.
pub open spec fn packet(frame_number: u32, input: BoxInput) -> Seq<u8> {
    frame_bytes(frame_number).push(input.inp)
}

/// What a packet holds, where it can be read: it is five bytes long.
pub open spec fn unpacked(bytes: Seq<u8>) -> Result<(u32, BoxInput), PacketError> {
    if bytes.len() == PACKET_LEN {
        Ok((frame_of(bytes) as u32, BoxInput { inp: bytes[4] }))
    } else {
        Err(PacketError::WrongLength)
    }
}

/// Builds the packet of an input for a frame.
pub fn encode_packet(frame_number: u32, input: BoxInput) -> (bytes: Vec<u8>)
    ensures
        bytes@ == packet(frame_number, input),
        bytes@.len() == PACKET_LEN,
{
    let mut bytes: Vec<u8> = Vec::new();
    bytes.push((frame_number % 256) as u8);
    bytes.push((frame_number / 256 % 256) as u8);
    bytes.push((frame_number / 65536 % 256) as u8);
    bytes.push((frame_number / 16777216) as u8);
    let mut payload = pod_bytes(input.to_wire());
    bytes.append(&mut payload);
    bytes
}

/// Reads a packet: the frame number and the input that it carries.
pub fn decode_packet(bytes: &[u8]) -> (outcome: Result<(u32, BoxInput), PacketError>)
    ensures
        outcome == unpacked(bytes@),
{
    if bytes.len() < 4 {
        return Err(PacketError::WrongLength);
    }
    let payload = slice_subrange(bytes, 4, bytes.len());
    match pod_from_bytes(payload) {
        Ok(byte) => {
            let frame_number: u32 = bytes[0] as u32 + 256 * (bytes[1] as u32) + 65536 * (
            bytes[2] as u32) + 16777216 * (bytes[3] as u32);
            Ok((frame_number, BoxInput::from_wire(byte)))
        },
        Err(_) => Err(PacketError::WrongLength),
    }
}

/// A packet that was built reads back as what it was built from.
pub proof fn lemma_packet_round_trip(frame_number: u32, input: BoxInput)
    ensures
        unpacked(packet(frame_number, input)) == Ok::<(u32, BoxInput), PacketError>(
            (frame_number, input),
        ),
{
}

} // verus!
