//! Frames as bytes.

use crate::bytes;
use crate::frame::error::{FrameError, FrameFault};
use vstd::prelude::*;
use vstd::slice::slice_subrange;

verus! {

/// The most bytes that may follow the length of a frame.
pub const MAX_FRAME_SIZE: u32 = 1048576;

/// What an encrypted frame adds to its data: sequence number, nonce and tag.
pub const FRAME_OVERHEAD: u32 = 32;

/// The fewest bytes that may follow the length of a frame.
pub const FRAME_MIN_DATA: u32 = 4;

/// A frame, without its length.
#[derive(Debug)]
pub struct Frame {
    pub seq: u32,
    pub data: Vec<u8>,
}

/// A frame as plain mathematics.
pub struct FrameView {
    pub seq: u32,
    pub data: Seq<u8>,
}

impl View for Frame {
    type V = FrameView;

    open spec fn view(&self) -> FrameView {
        FrameView { seq: self.seq, data: self.data@ }
    }
}

/// The bytes of a frame: how many follow, the sequence number, the data.
pub open spec fn frame_bytes(seq: u32, data: Seq<u8>) -> Seq<u8> {
    bytes::be(4 + data.len(), 4) + bytes::be(seq as nat, 4) + data
}

/// A number of bytes, or the largest number that an error can report.
pub open spec fn reported(n: nat) -> u32 {
    if n > u32::MAX {
        u32::MAX
    } else {
        n as u32
    }
}

/// What writing a frame gives.
pub open spec fn encoded_frame(seq: u32, data: Seq<u8>) -> Result<Seq<u8>, FrameFault> {
    if 4 + data.len() > MAX_FRAME_SIZE {
        Err(FrameFault::TooLarge(reported(4 + data.len()), MAX_FRAME_SIZE))
    } else {
        Ok(frame_bytes(seq, data))
    }
}

/// What reading a frame without its length gives: the sequence number, and the
/// rest as data.
pub open spec fn parsed_frame(s: Seq<u8>) -> Result<FrameView, FrameFault> {
    if s.len() < 4 {
        Err(FrameFault::TooShort(s.len() as u32))
    } else {
        Ok(FrameView { seq: bytes::from_be(s.take(4)) as u32, data: s.skip(4) })
    }
}

/// The length that four bytes spell, or why no frame can have it.
pub open spec fn frame_len(header: Seq<u8>) -> Result<u32, FrameFault> {
    let n = bytes::from_be(header) as u32;
    if n > MAX_FRAME_SIZE {
        Err(FrameFault::TooLarge(n, MAX_FRAME_SIZE))
    } else if n < FRAME_MIN_DATA {
        Err(FrameFault::TooShort(n))
    } else {
        Ok(n)
    }
}

/// What reading a frame from the front of `s` gives: the frame, and how many
/// bytes it takes.
pub open spec fn read_outcome(s: Seq<u8>) -> Result<(FrameView, nat), FrameFault> {
    if s.len() < 4 {
        Err(FrameFault::Eof)
    } else {
        match frame_len(s.take(4)) {
            Err(e) => Err(e),
            Ok(n) => if s.len() < 4 + n {
                Err(FrameFault::Io("failed to fill whole buffer"@))
            } else {
                match parsed_frame(s.subrange(4, 4 + n as int)) {
                    Ok(f) => Ok((f, 4 + n as nat)),
                    Err(e) => Err(e),
                }
            },
        }
    }
}

/// Check the length of a frame that was announced.
pub fn check_frame_len(header: &[u8; 4]) -> (r: Result<u32, FrameError>)
    ensures
        match r {
            Ok(n) => frame_len(header@) == Ok::<u32, FrameFault>(n),
            Err(e) => frame_len(header@) == Err::<u32, FrameFault>(e@),
        },
{
    let header: &[u8] = header;
    proof {
        bytes::lemma_from_be_bound(header@);
        bytes::lemma_pow256();
    }
    let n: u32 = bytes::read_be(header) as u32;
    if n > MAX_FRAME_SIZE {
        return Err(FrameError::TooLarge(n, MAX_FRAME_SIZE));
    }
    if n < FRAME_MIN_DATA {
        return Err(FrameError::TooShort(n));
    }
    Ok(n)
}

/// The bytes of a frame.
pub fn encode_frame(seq: u32, frame_data: &[u8]) -> (r: Result<Vec<u8>, FrameError>)
    ensures
        match r {
            Ok(out) => encoded_frame(seq, frame_data@) == Ok::<Seq<u8>, FrameFault>(out@),
            Err(e) => encoded_frame(seq, frame_data@) == Err::<Seq<u8>, FrameFault>(e@),
        },
{
    if frame_data.len() > MAX_FRAME_SIZE as usize - 4 {
        let n: u32 = if frame_data.len() > 0xFFFF_FFFB {
            u32::MAX
        } else {
            4 + frame_data.len() as u32
        };
        return Err(FrameError::TooLarge(n, MAX_FRAME_SIZE));
    }
    let mut out: Vec<u8> = Vec::new();
    bytes::push_be(&mut out, 4 + frame_data.len() as u64, 4);
    bytes::push_be(&mut out, seq as u64, 4);
    bytes::push_all(&mut out, frame_data);
    assert(out@ =~= frame_bytes(seq, frame_data@));
    Ok(out)
}

/// Append the bytes of a frame to `w`, or nothing if it is too large.
pub fn write_frame(w: &mut Vec<u8>, seq: u32, frame_data: &[u8]) -> (r: Result<(), FrameError>)
    ensures
        match r {
            Ok(()) => encoded_frame(seq, frame_data@) matches Ok(out) && final(w)@ == old(w)@
                + out,
            Err(e) => encoded_frame(seq, frame_data@) == Err::<Seq<u8>, FrameFault>(e@)
                && final(w)@ == old(w)@,
        },
{
    match encode_frame(seq, frame_data) {
        Ok(out) => {
            bytes::push_all(w, out.as_slice());
            Ok(())
        },
        Err(e) => Err(e),
    }
}

/// Read a frame from bytes that begin with its sequence number.
pub fn parse_frame_data(data: &[u8]) -> (r: Result<Frame, FrameError>)
    ensures
        match r {
            Ok(f) => parsed_frame(data@) == Ok::<FrameView, FrameFault>(f@),
            Err(e) => parsed_frame(data@) == Err::<FrameView, FrameFault>(e@),
        },
{
    if data.len() < 4 {
        return Err(FrameError::TooShort(data.len() as u32));
    }
    let front = slice_subrange(data, 0, 4);
    let rest = slice_subrange(data, 4, data.len());
    proof {
        assert(front@ =~= data@.take(4));
        assert(rest@ =~= data@.skip(4));
        bytes::lemma_from_be_bound(front@);
        bytes::lemma_pow256();
    }
    Ok(Frame { seq: bytes::read_be(front) as u32, data: bytes::to_vec(rest) })
}

/// Read a frame from the front of `r`. What was read is taken off `r`: the whole
/// frame, or its length where that is refused or bytes are missing, or nothing
/// where there is not even a length.
pub fn read_frame(r: &mut &[u8]) -> (result: Result<Frame, FrameError>)
    ensures
        match result {
            Ok(f) => read_outcome(old(r)@) matches Ok((frame, n)) && f@ == frame && final(r)@
                == old(r)@.skip(n as int),
            Err(e) => read_outcome(old(r)@) == Err::<(FrameView, nat), FrameFault>(e@) && final(r)@
                == if old(r)@.len() < 4 {
                old(r)@
            } else {
                old(r)@.skip(4)
            },
        },
{
    let all = *r;
    if all.len() < 4 {
        return Err(FrameError::Eof);
    }
    let header = slice_subrange(all, 0, 4);
    let rest = slice_subrange(all, 4, all.len());
    proof {
        assert(header@ =~= all@.take(4));
        assert(rest@ =~= all@.skip(4));
    }
    *r = rest;
    match check_frame_len(&bytes::to_array(header)) {
        Err(e) => Err(e),
        Ok(n) => {
            let n: usize = n as usize;
            if rest.len() < n {
                return Err(FrameError::Io("failed to fill whole buffer".to_owned()));
            }
            let body = slice_subrange(rest, 0, n);
            let after = slice_subrange(rest, n, rest.len());
            proof {
                assert(body@ =~= all@.subrange(4, 4 + n as int));
                assert(after@ =~= all@.skip(4 + n as int));
            }
            *r = after;
            parse_frame_data(body)
        },
    }
}

/// A frame of at most 1048572 bytes of data is written: how many bytes follow, the
/// sequence number, both in four bytes with the most significant first, and the
/// data. A larger one is refused, with its size and the limit.
pub proof fn law_frame_bytes(seq: u32, data: Seq<u8>)
    ensures
        ({
            let n = 4 + data.len();
            if data.len() <= 1048572 {
                encoded_frame(seq, data) == Ok::<Seq<u8>, FrameFault>(
                    seq![
                        (n / 0x100_0000) as u8,
                        (n / 0x1_0000 % 0x100) as u8,
                        (n / 0x100 % 0x100) as u8,
                        (n % 0x100) as u8,
                        (seq as nat / 0x100_0000) as u8,
                        (seq as nat / 0x1_0000 % 0x100) as u8,
                        (seq as nat / 0x100 % 0x100) as u8,
                        (seq as nat % 0x100) as u8,
                    ] + data,
                ) && encoded_frame(seq, data) == Ok::<Seq<u8>, FrameFault>(frame_bytes(seq, data))
            } else {
                encoded_frame(seq, data) matches Err(FrameFault::TooLarge(size, max)) && max
                    == 1048576 && (n <= u32::MAX ==> size == n) && (n > u32::MAX ==> size
                    == u32::MAX)
            }
        }),
{
    if data.len() <= 1048572 {
        bytes::law_be_bytes(4 + data.len());
        bytes::law_be_bytes(seq as nat);
        assert(frame_bytes(seq, data) =~= bytes::be(4 + data.len(), 4) + bytes::be(seq as nat, 4)
            + data);
        let n = 4 + data.len();
        assert(frame_bytes(seq, data) =~= seq![
            (n / 0x100_0000) as u8,
            (n / 0x1_0000 % 0x100) as u8,
            (n / 0x100 % 0x100) as u8,
            (n % 0x100) as u8,
            (seq as nat / 0x100_0000) as u8,
            (seq as nat / 0x1_0000 % 0x100) as u8,
            (seq as nat / 0x100 % 0x100) as u8,
            (seq as nat % 0x100) as u8,
        ] + data);
    }
}

/// Four bytes announce a length, the most significant first, and lengths from 4 to
/// 1048576 are accepted.
pub proof fn law_frame_len(header: Seq<u8>)
    requires
        header.len() == 4,
    ensures
        ({
            let n = 0x100_0000 * header[0] + 0x1_0000 * header[1] + 0x100 * header[2] + header[3];
            &&& n > 1048576 ==> frame_len(header) == Err::<u32, FrameFault>(
                FrameFault::TooLarge(n as u32, 1048576),
            )
            &&& n < 4 ==> frame_len(header) == Err::<u32, FrameFault>(
                FrameFault::TooShort(n as u32),
            )
            &&& 4 <= n <= 1048576 ==> frame_len(header) == Ok::<u32, FrameFault>(n as u32)
        }),
{
    bytes::law_from_be_bytes(header, 0);
}

/// What follows the length is the sequence number in four bytes and then the data;
/// less than four bytes are no frame.
pub proof fn law_parsed_frame(s: Seq<u8>)
    ensures
        s.len() >= 4 ==> parsed_frame(s) == Ok::<FrameView, FrameFault>(
            FrameView {
                seq: (0x100_0000 * s[0] + 0x1_0000 * s[1] + 0x100 * s[2] + s[3]) as u32,
                data: s.skip(4),
            },
        ),
        s.len() < 4 ==> parsed_frame(s) == Err::<FrameView, FrameFault>(
            FrameFault::TooShort(s.len() as u32),
        ),
{
    if s.len() >= 4 {
        bytes::law_from_be_bytes(s.take(4), 0);
    }
}

/// No frame is read where the input ends before its length, where its length is
/// refused, or where bytes are missing.
pub proof fn law_read_refused(s: Seq<u8>)
    ensures
        s.len() < 4 ==> read_outcome(s) == Err::<(FrameView, nat), FrameFault>(FrameFault::Eof),
        s.len() >= 4 ==> match frame_len(s.take(4)) {
            Err(e) => read_outcome(s) == Err::<(FrameView, nat), FrameFault>(e),
            Ok(n) => s.len() < 4 + n ==> read_outcome(s) == Err::<(FrameView, nat), FrameFault>(
                FrameFault::Io("failed to fill whole buffer"@),
            ),
        },
{
}

/// Reading a frame gives back the sequence number and the data that were
/// written, whatever bytes follow.
pub proof fn law_frame_roundtrip(seq: u32, data: Seq<u8>, rest: Seq<u8>)
    requires
        4 + data.len() <= MAX_FRAME_SIZE,
    ensures
        read_outcome(frame_bytes(seq, data) + rest) == Ok::<(FrameView, nat), FrameFault>(
            (FrameView { seq, data }, frame_bytes(seq, data).len()),
        ),
{
    let all = frame_bytes(seq, data) + rest;
    let n = 4 + data.len();
    bytes::lemma_be_len(n, 4);
    bytes::lemma_pow256();
    bytes::lemma_from_be_be(n, 4);
    assert(all.take(4) =~= bytes::be(n, 4));
    law_parse_frame(seq, data);
    assert(all.subrange(4, 4 + n as int) =~= bytes::be(seq as nat, 4) + data);
}

/// Reading what follows the length gives back the sequence number and the data.
pub proof fn law_parse_frame(seq: u32, data: Seq<u8>)
    ensures
        parsed_frame(bytes::be(seq as nat, 4) + data) == Ok::<FrameView, FrameFault>(
            FrameView { seq, data },
        ),
        frame_bytes(seq, data).skip(4) == bytes::be(seq as nat, 4) + data,
{
    let s = bytes::be(seq as nat, 4) + data;
    bytes::lemma_be_len(seq as nat, 4);
    bytes::lemma_be_len(4 + data.len(), 4);
    bytes::lemma_pow256();
    bytes::lemma_from_be_be(seq as nat, 4);
    assert(s.take(4) =~= bytes::be(seq as nat, 4));
    assert(s.skip(4) =~= data);
    assert(frame_bytes(seq, data).skip(4) =~= s);
}

} // verus!
