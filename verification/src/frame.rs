//! Request frames: the bytes of one write to the board.
use arrayvec::ArrayVec;
use vstd::prelude::*;

verus! {

/// The greatest number of bytes in one transfer on the bus.
pub const I2C_MAX_LEN: usize = 6;

/// The bytes of one write to the board, in an `arrayvec::ArrayVec` that
/// cannot hold more than a transfer allows. What the vector holds is known to
/// the verifier by [`frame_bytes`] alone.
#[verifier::external_body]
#[derive(Debug, PartialEq, Eq)]
pub struct Frame {
    bytes: ArrayVec<[u8; 6]>,
}

/// The bytes that a frame holds, first to last.
pub uninterp spec fn frame_bytes(frame: Frame) -> Seq<u8>;

impl View for Frame {
    type V = Seq<u8>;

    open spec fn view(&self) -> Seq<u8> {
        frame_bytes(*self)
    }
}

/// `ArrayVec::new`: a frame that holds no byte yet.
#[verifier::external_body]
fn frame_new() -> (frame: Frame)
    ensures
        frame_bytes(frame) == Seq::<u8>::empty(),
{
    Frame { bytes: ArrayVec::new() }
}

/// `ArrayVec::push`: appends one byte. The call panics on a full vector, so
/// it is made only while there is room.
#[verifier::external_body]
fn frame_push(frame: &mut Frame, byte: u8)
    requires
        frame_bytes(*old(frame)).len() < I2C_MAX_LEN,
    ensures
        frame_bytes(*final(frame)) == frame_bytes(*old(frame)).push(byte),
{
    frame.bytes.push(byte)
}

/// `ArrayVec::extend`: appends the bytes of `data` in order. The call takes
/// no more items than there is room for and drops the rest without a word;
/// it is made only with data that fits, so every byte is taken.
#[verifier::external_body]
fn frame_extend(frame: &mut Frame, data: &[u8])
    requires
        frame_bytes(*old(frame)).len() + data@.len() <= I2C_MAX_LEN,
    ensures
        frame_bytes(*final(frame)) == frame_bytes(*old(frame)) + data@,
{
    frame.bytes.extend(data.iter().cloned())
}

/// `ArrayVec::as_slice`: the bytes held, as a slice.
#[verifier::external_body]
fn frame_as_slice(frame: &Frame) -> (bytes: &[u8])
    ensures
        bytes@ == frame_bytes(*frame),
{
    frame.bytes.as_slice()
}

impl Frame {
    /// The frame of a request: the opcode, then the arguments in order.
    pub fn encode(opcode: u8, data: &[u8]) -> (frame: Frame)
        requires
            data@.len() < I2C_MAX_LEN,
        ensures
            frame@ == seq![opcode] + data@,
    {
        let mut frame = frame_new();
        frame_push(&mut frame, opcode);
        frame_extend(&mut frame, data);
        assert(Seq::<u8>::empty().push(opcode) =~= seq![opcode]);
        frame
    }

    /// The bytes to write, first to last.
    pub fn as_slice(&self) -> (bytes: &[u8])
        ensures
            bytes@ == self@,
    {
        frame_as_slice(self)
    }
}

} // verus!
