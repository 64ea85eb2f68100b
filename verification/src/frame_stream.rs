//! Reading frames from the receiving side of a stream, as its bytes arrive:
//! frame headers, then the payload of each DATA frame in pieces.
//!
//! The caller hands over what the transport delivers (`receive`, `finish`)
//! and asks for the next frame (`poll_next`) or the next piece of a DATA
//! payload (`poll_data`); `NeedData` asks it to wait for more bytes.
use vstd::prelude::*;
use crate::buf::{spec_after_advance, spec_after_push, spec_front_len, BufList};
use crate::frame::{DecodeOutcome, FrameDecoder, FrameStreamError, StreamFrame, StreamFrameModel};

verus! {

/// What `poll_next` found.
#[derive(Debug)]
pub enum FrameStep {
    /// A frame header (and, but for DATA, the frame)
    Frame(StreamFrame),
    /// The stream ended cleanly between frames
    End,
    /// More bytes must arrive first
    NeedData,
}

/// What `poll_data` found.
#[derive(Debug, PartialEq, Eq)]
pub enum DataStep {
    /// A piece of the payload
    Data(Vec<u8>),
    /// The payload is over, or the stream ended
    End,
    /// More bytes must arrive first
    NeedData,
}

/// A stream read as frames.
#[derive(Debug)]
pub struct FrameStream {
    decoder: FrameDecoder,
    buf: BufList,
    remaining_data: u64,
    eos: bool,
}

impl FrameStream {
    /// The decoder.
    pub closed spec fn decoder(self) -> FrameDecoder {
        self.decoder
    }

    /// The bytes received and not consumed.
    pub closed spec fn buffered(self) -> Seq<u8> {
        self.buf@
    }

    /// Where the chunks that arrived end within the bytes received and not
    /// consumed.
    pub closed spec fn chunk_ends(self) -> Seq<int> {
        self.buf.chunk_ends()
    }

    /// Bytes of the current DATA payload not yet handed out.
    pub closed spec fn remaining_data(self) -> u64 {
        self.remaining_data
    }

    /// Whether the transport reported the end of the stream.
    pub closed spec fn eos(self) -> bool {
        self.eos
    }

    /// A stream with nothing received, whose decoder buffers frames of up to
    /// `max_buffered_frame` payload bytes.
    pub fn new_with_max_buffered_frame(max_buffered_frame: u64) -> (s: Self)
        ensures
            s.decoder().expected() is None,
            s.decoder().skipping() == 0,
            s.decoder().max_buffered() == max_buffered_frame,
            s.buffered() == Seq::<u8>::empty(),
            s.chunk_ends() == Seq::<int>::empty(),
            s.remaining_data() == 0,
            !s.eos(),
    {
        FrameStream { decoder: FrameDecoder::new(max_buffered_frame), buf: BufList::new(), remaining_data: 0, eos: false }
    }

    /// The transport delivered `chunk`.
    pub fn receive(&mut self, chunk: &[u8])
        ensures
            final(self).buffered() == old(self).buffered() + chunk@,
            final(self).chunk_ends() == spec_after_push(old(self).chunk_ends(), old(self).buffered().len() as int, chunk@.len() as int),
            final(self).decoder() == old(self).decoder(),
            final(self).remaining_data() == old(self).remaining_data(),
            final(self).eos() == old(self).eos(),
    {
        self.buf.push(chunk);
    }

    /// The transport reported the end of the stream.
    pub fn finish(&mut self)
        ensures
            final(self).buffered() == old(self).buffered(),
            final(self).chunk_ends() == old(self).chunk_ends(),
            final(self).decoder() == old(self).decoder(),
            final(self).remaining_data() == old(self).remaining_data(),
            final(self).eos(),
    {
        self.eos = true;
    }

    /// Whether a DATA payload is still being handed out.
    pub fn has_data(&self) -> (b: bool)
        ensures
            b == (self.remaining_data() != 0),
    {
        self.remaining_data != 0
    }

    /// Whether the stream ended and every byte was consumed.
    pub fn is_eos(&self) -> (b: bool)
        ensures
            b == (self.eos() && self.buffered().len() == 0),
    {
        self.eos && !self.buf.has_remaining()
    }

    /// The next frame: decoded from the bytes received; a DATA frame makes
    /// its payload the next thing `poll_data` hands out. Without a complete
    /// frame, `NeedData` while the stream is open; once it ended, the end of
    /// the frames when nothing is left over, else `UnexpectedEnd`.
    pub fn poll_next(&mut self) -> (r: Result<FrameStep, FrameStreamError>)
        requires
            old(self).remaining_data() == 0,
        ensures
            ({
                let (out, d, n) = old(self).decoder().spec_decode(old(self).buffered());
                &&& final(self).decoder() == d
                &&& final(self).buffered() == old(self).buffered().skip(n as int)
                &&& final(self).chunk_ends() == spec_after_advance(old(self).chunk_ends(), n as int)
                &&& final(self).eos() == old(self).eos()
                &&& match out {
                    DecodeOutcome::Frame(f) => r matches Ok(FrameStep::Frame(g)) && g@ == f
                        && final(self).remaining_data() == match f {
                            StreamFrameModel::Data(len) => len,
                            _ => 0,
                        },
                    DecodeOutcome::Failed(e) => r == Err::<FrameStep, FrameStreamError>(e)
                        && final(self).remaining_data() == 0,
                    DecodeOutcome::NeedMore => final(self).remaining_data() == 0 && if !old(self).eos() {
                        r matches Ok(FrameStep::NeedData)
                    } else if final(self).buffered().len() > 0 || d.expected() is Some || d.skipping() > 0 {
                        r == Err::<FrameStep, FrameStreamError>(FrameStreamError::UnexpectedEnd)
                    } else {
                        r matches Ok(FrameStep::End)
                    },
                }
            }),
    {
        match self.decoder.decode(&mut self.buf) {
            Ok(Some(frame)) => {
                if let StreamFrame::Data(len) = frame {
                    self.remaining_data = len;
                }
                Ok(FrameStep::Frame(frame))
            },
            Ok(None) => {
                if !self.eos {
                    Ok(FrameStep::NeedData)
                } else if self.buf.has_remaining() || self.decoder.is_incomplete() {
                    Err(FrameStreamError::UnexpectedEnd)
                } else {
                    Ok(FrameStep::End)
                }
            },
            Err(e) => Err(e),
        }
    }

    /// The next piece of the current DATA payload: `End` when it is over (or
    /// none is under way); the rest of the first chunk received is handed
    /// out, up to what the payload still holds, so the payload comes in the
    /// pieces it arrived in; with nothing received, `NeedData` while the
    /// stream is open and `End` once it ended; a stream that ends before
    /// the payload does is `UnexpectedEnd`.
    pub fn poll_data(&mut self) -> (r: Result<DataStep, FrameStreamError>)
        ensures
            final(self).decoder() == old(self).decoder(),
            final(self).eos() == old(self).eos(),
            ({
                let s = old(self).buffered();
                let e = old(self).chunk_ends();
                let rem = old(self).remaining_data();
                let front = spec_front_len(e);
                let k = if front < rem { front } else { rem as int };
                if rem == 0 {
                    r matches Ok(DataStep::End) && *final(self) == *old(self)
                } else if s.len() == 0 {
                    final(self).buffered() == s && final(self).chunk_ends() == e && final(self).remaining_data() == rem
                        && if old(self).eos() {
                        r matches Ok(DataStep::End)
                    } else {
                        r matches Ok(DataStep::NeedData)
                    }
                } else {
                    &&& final(self).buffered() == s.skip(k)
                    &&& final(self).chunk_ends() == spec_after_advance(e, k)
                    &&& if old(self).eos() && k < rem && k == s.len() {
                        r == Err::<DataStep, FrameStreamError>(FrameStreamError::UnexpectedEnd)
                    } else {
                        r matches Ok(DataStep::Data(v)) && v@ == s.take(k) && final(self).remaining_data() == rem - k
                    }
                }
            }),
    {
        if self.remaining_data == 0 {
            return Ok(DataStep::End);
        }
        let end = self.eos;
        match self.buf.take_chunk(self.remaining_data) {
            None => if end {
                Ok(DataStep::End)
            } else {
                Ok(DataStep::NeedData)
            },
            Some(d) => {
                if end && (d.len() as u64) < self.remaining_data && !self.buf.has_remaining() {
                    Err(FrameStreamError::UnexpectedEnd)
                } else {
                    self.remaining_data = self.remaining_data - d.len() as u64;
                    Ok(DataStep::Data(d))
                }
            },
        }
    }
}

} // verus!
