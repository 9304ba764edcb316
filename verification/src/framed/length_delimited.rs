//! A stream of messages, each with its length before it.
//!
//! On the wire a frame is the length of its body, in the length type `L`,
//! and then the body, which is one message of type `F`. Decoding is a state
//! machine over a cursor that the caller keeps filling: it waits for a whole
//! length, then for as many bytes as the length says, and hands out one
//! message at a time.

use crate::codec::endian::{be_bytes, fits};
use crate::codec::number::{lemma_len_round_trip, WireInt};
use crate::cursor::{max_len, mut_contents};
use crate::decode::Decoder;
use crate::encode::Encoder;
use crate::error::Error;
use crate::model::{modeled, Modeled};
use bytes::{Buf, BytesMut};
use core::marker::PhantomData;
use vstd::prelude::*;

verus! {

/// A frame that breaks the rules of the stream it came in.
#[derive(Debug)]
pub struct LengthDelimitedCodecError(pub &'static str);

impl LengthDelimitedCodecError {
    /// What went wrong, in words.
    pub fn message(&self) -> (s: &'static str)
        ensures
            s == self.0,
    {
        self.0
    }
}

/// The error of a frame whose length is over the limit of its codec.
pub open spec fn frame_too_long() -> LengthDelimitedCodecError {
    LengthDelimitedCodecError("frame length exceeds maximum")
}

/// The error of a frame whose message ends before its body does.
pub open spec fn trailing_bytes() -> LengthDelimitedCodecError {
    LengthDelimitedCodecError("bytes remaining after frame")
}

/// Why a frame could not be decoded or encoded. Each of these ends the
/// stream: nothing is skipped to find the next frame.
#[derive(Debug)]
pub enum FrameError<P, M> {
    /// The frame breaks the rules of the stream.
    Codec(LengthDelimitedCodecError),
    /// The length of the frame failed to decode or encode.
    Length(P),
    /// The message in the frame failed to decode or encode.
    Frame(M),
}

/// What the decoder is waiting for.
#[derive(Debug, Clone, Copy)]
pub enum DecodeState {
    /// A whole length.
    Head,
    /// As many bytes of body as the length said.
    Data(usize),
}

/// One step of decoding: what it hands out, what it waits for next, and
/// what it leaves in the cursor.
pub struct Step<T, P, M> {
    pub outcome: Result<Option<T>, FrameError<P, M>>,
    pub state: DecodeState,
    pub rest: Seq<u8>,
}

/// A codec for frames of messages of type `F`, with lengths of type `L`.
#[derive(Debug)]
pub struct LengthDelimitedCodec<F, L> {
    max_frame_len: usize,
    state: DecodeState,
    _marker: PhantomData<(F, L)>,
}

impl<F, L> LengthDelimitedCodec<F, L> {
    /// The longest body that the codec accepts.
    pub closed spec fn max_frame_len(&self) -> usize {
        self.max_frame_len
    }

    /// What the decoder is waiting for.
    pub closed spec fn state(&self) -> DecodeState {
        self.state
    }

    /// A codec that accepts bodies of up to `max_frame_len` bytes and waits
    /// for the first length.
    pub fn new(max_frame_len: usize) -> (codec: Self)
        ensures
            codec.max_frame_len() == max_frame_len,
            codec.state() == DecodeState::Head,
    {
        Self { max_frame_len, state: DecodeState::Head, _marker: PhantomData }
    }
}

impl<F, L> Clone for LengthDelimitedCodec<F, L> {
    fn clone(&self) -> (codec: Self)
        ensures
            codec == *self,
    {
        Self { max_frame_len: self.max_frame_len, state: self.state, _marker: PhantomData }
    }
}

impl<F, L> LengthDelimitedCodec<F, L> where
    F: Modeled + Decoder + Encoder,
    L: Decoder<usize> + Encoder<usize>,
 {
    /// What the body of one frame gives: the message decoded from it, which
    /// has to take all of it.
    pub open spec fn message(body: Seq<u8>) -> Result<
        Option<F::Model>,
        FrameError<<L as Decoder<usize>>::Error, <F as Decoder>::Error>,
    > {
        match <F as Decoder>::decoded(body) {
            Err(e) => Err(FrameError::Frame(e)),
            Ok(message) => if <F as Decoder>::consumed(body) < body.len() {
                Err(FrameError::Codec(trailing_bytes()))
            } else {
                Ok(Some(message))
            },
        }
    }

    /// One step of decoding in `state`, with `input` in the cursor.
    ///
    /// Waiting for a length: with too few bytes for one, nothing happens.
    /// Otherwise the length is decoded; one over `max_frame_len` ends the
    /// stream, any other is what the decoder waits for next.
    ///
    /// Waiting for a body of `len` bytes: with fewer, nothing happens.
    /// Otherwise exactly `len` bytes leave the cursor and one message is
    /// decoded from them alone; it has to take all of them.
    pub open spec fn step(state: DecodeState, max_frame_len: usize, input: Seq<u8>) -> Step<
        F::Model,
        <L as Decoder<usize>>::Error,
        <F as Decoder>::Error,
    > {
        match state {
            DecodeState::Head => {
                if !<L as Decoder<usize>>::enough(input) {
                    Step { outcome: Ok(None), state, rest: input }
                } else {
                    let rest = input.skip(<L as Decoder<usize>>::consumed(input) as int);
                    match <L as Decoder<usize>>::decoded(input) {
                        Err(e) => Step { outcome: Err(FrameError::Length(e)), state, rest },
                        Ok(len) => if len > max_frame_len {
                            Step { outcome: Err(FrameError::Codec(frame_too_long())), state, rest }
                        } else {
                            Step { outcome: Ok(None), state: DecodeState::Data(len), rest }
                        },
                    }
                }
            },
            DecodeState::Data(len) => {
                if input.len() < len {
                    Step { outcome: Ok(None), state, rest: input }
                } else {
                    let body = input.subrange(0, len as int);
                    let rest = input.skip(len as int);
                    match Self::message(body) {
                        Ok(message) => Step {
                            outcome: Ok(message),
                            state: DecodeState::Head,
                            rest,
                        },
                        Err(e) => Step { outcome: Err(e), state, rest },
                    }
                }
            },
        }
    }

    /// The bytes that encoding `item` as a frame appends: the length of its
    /// body and the body. Where the length fails to encode, the body is
    /// not written.
    pub open spec fn framed(item: &F) -> Seq<u8> {
        let len = <F as Encoder>::encoded_size(item) as usize;
        match <L as Encoder<usize>>::outcome(&len) {
            Ok(_) => <L as Encoder<usize>>::encoded(&len) + <F as Encoder>::encoded(item),
            Err(_) => <L as Encoder<usize>>::encoded(&len),
        }
    }

    /// How encoding `item` as a frame ends.
    pub open spec fn frame_outcome(item: &F) -> Result<
        (),
        FrameError<<L as Encoder<usize>>::Error, <F as Encoder>::Error>,
    > {
        let len = <F as Encoder>::encoded_size(item) as usize;
        match <L as Encoder<usize>>::outcome(&len) {
            Err(e) => Err(FrameError::Length(e)),
            Ok(_) => match <F as Encoder>::outcome(item) {
                Err(e) => Err(FrameError::Frame(e)),
                Ok(_) => Ok(()),
            },
        }
    }

    /// No progress: until a whole length, or a whole body, is in the cursor,
    /// a step hands out nothing and changes nothing, so that the bytes of a
    /// frame may arrive in any number of pieces.
    pub proof fn lemma_no_progress(state: DecodeState, max_frame_len: usize, input: Seq<u8>)
        requires
            match state {
                DecodeState::Head => !<L as Decoder<usize>>::enough(input),
                DecodeState::Data(len) => input.len() < len,
            },
        ensures
            Self::step(state, max_frame_len, input).outcome == Ok::<
                Option<F::Model>,
                FrameError<<L as Decoder<usize>>::Error, <F as Decoder>::Error>,
            >(None),
            Self::step(state, max_frame_len, input).state == state,
            Self::step(state, max_frame_len, input).rest == input,
    {
    }

    /// Oversize rejection: a length over the limit ends the stream with the
    /// error for it, and the decoder never comes to wait for the body.
    pub proof fn lemma_oversize(max_frame_len: usize, input: Seq<u8>)
        requires
            <L as Decoder<usize>>::enough(input),
            <L as Decoder<usize>>::decoded(input) matches Ok(len) && len > max_frame_len,
        ensures
            Self::step(DecodeState::Head, max_frame_len, input).outcome == Err::<
                Option<F::Model>,
                FrameError<<L as Decoder<usize>>::Error, <F as Decoder>::Error>,
            >(FrameError::Codec(frame_too_long())),
            Self::step(DecodeState::Head, max_frame_len, input).state == DecodeState::Head,
    {
    }

    /// Trailing-bytes rejection: a body whose message decodes from fewer
    /// bytes than the body has ends the stream with the error for it.
    pub proof fn lemma_trailing_bytes(max_frame_len: usize, len: usize, input: Seq<u8>)
        requires
            input.len() >= len,
            <F as Decoder>::decoded(input.subrange(0, len as int)) is Ok,
            <F as Decoder>::consumed(input.subrange(0, len as int)) < len,
        ensures
            Self::step(DecodeState::Data(len), max_frame_len, input).outcome == Err::<
                Option<F::Model>,
                FrameError<<L as Decoder<usize>>::Error, <F as Decoder>::Error>,
            >(FrameError::Codec(trailing_bytes())),
    {
    }

    /// Frame boundary: with a whole body in the cursor, the message is
    /// decoded from the bytes of the body alone, whatever follows them, and
    /// what follows them is what stays in the cursor.
    pub proof fn lemma_frame_boundary(max_frame_len: usize, body: Seq<u8>, rest: Seq<u8>)
        requires
            body.len() <= usize::MAX,
        ensures
            Self::step(
                DecodeState::Data(body.len() as usize),
                max_frame_len,
                body + rest,
            ).outcome == Self::message(body),
            Self::step(DecodeState::Data(body.len() as usize), max_frame_len, body + rest).rest
                == rest,
            Self::message(body) is Ok ==> Self::step(
                DecodeState::Data(body.len() as usize),
                max_frame_len,
                body + rest,
            ).state == DecodeState::Head,
    {
        assert((body + rest).subrange(0, body.len() as int) =~= body);
    }

    /// Takes one step of decoding on the bytes gathered in `src`.
    ///
    /// `Ok(None)` asks for more bytes, or says that a length was read and
    /// the body is awaited; `Ok(Some(..))` is one message. Until a whole
    /// length or a whole body is there, neither `src` nor the codec changes.
    pub fn decode(&mut self, src: &mut BytesMut) -> (r: Result<
        Option<F>,
        FrameError<<L as Decoder<usize>>::Error, <F as Decoder>::Error>,
    >)
        ensures
            final(self).max_frame_len() == old(self).max_frame_len(),
            modeled(r) == Self::step(
                old(self).state(),
                old(self).max_frame_len(),
                mut_contents(old(src)),
            ).outcome,
            final(self).state() == Self::step(
                old(self).state(),
                old(self).max_frame_len(),
                mut_contents(old(src)),
            ).state,
            mut_contents(final(src)) == Self::step(
                old(self).state(),
                old(self).max_frame_len(),
                mut_contents(old(src)),
            ).rest,
    {
        match self.state {
            DecodeState::Head => {
                if <L as Decoder<usize>>::has_enough_bytes(src) {
                    let len = match <L as Decoder<usize>>::decode(src) {
                        Ok(len) => len,
                        Err(e) => {
                            return Err(FrameError::Length(e));
                        },
                    };
                    if len > self.max_frame_len {
                        return Err(
                            FrameError::Codec(
                                LengthDelimitedCodecError("frame length exceeds maximum"),
                            ),
                        );
                    }
                    let held = src.len();
                    let most = isize::MAX as usize;
                    if held <= most && len <= most - held {
                        src.reserve(len);
                    }
                    self.state = DecodeState::Data(len);
                }
                Ok(None)
            },
            DecodeState::Data(len) => {
                if <BytesMut as Buf>::remaining(src) < len {
                    return Ok(None);
                }
                let mut body = src.split_to(len);
                let frame = match <F as Decoder>::decode(&mut body) {
                    Ok(frame) => frame,
                    Err(e) => {
                        return Err(FrameError::Frame(e));
                    },
                };
                if !body.is_empty() {
                    return Err(
                        FrameError::Codec(LengthDelimitedCodecError("bytes remaining after frame")),
                    );
                }
                self.state = DecodeState::Head;
                Ok(Some(frame))
            },
        }
    }

    /// Appends `item` to `dst` as one frame: the size of its encoding, then
    /// the encoding. The decoder's state plays no part in it.
    pub fn encode(&mut self, item: F, dst: &mut BytesMut) -> (r: Result<
        (),
        FrameError<<L as Encoder<usize>>::Error, <F as Encoder>::Error>,
    >)
        requires
            <F as Encoder>::encoded_size(&item) <= usize::MAX,
            mut_contents(old(dst)).len() + <L as Encoder<usize>>::encoded_size(
                &(<F as Encoder>::encoded_size(&item) as usize),
            ) + <F as Encoder>::encoded_size(&item) <= max_len(),
        ensures
            *final(self) == *old(self),
            r == Self::frame_outcome(&item),
            mut_contents(final(dst)) == mut_contents(old(dst)) + Self::framed(&item),
    {
        let len = <F as Encoder>::size_of(&item);
        let prefix = <L as Encoder<usize>>::size_of(&len);
        dst.reserve(prefix + len);
        match <L as Encoder<usize>>::encode(&len, dst) {
            Ok(_) => {},
            Err(e) => {
                return Err(FrameError::Length(e));
            },
        }
        match <F as Encoder>::encode(&item, dst) {
            Ok(_) => {},
            Err(e) => {
                return Err(FrameError::Frame(e));
            },
        }
        Ok(())
    }
}

/// The head of a frame: a length within the limit, written in the integer
/// type `L`, takes the decoder from waiting for a length to waiting for a
/// body of that length, and leaves in the cursor what follows the length.
pub proof fn lemma_frame_head<F, L>(max_frame_len: usize, len: usize, rest: Seq<u8>)
    where F: Modeled + Decoder + Encoder, L: WireInt
    requires
        fits(len as int, L::width(), L::signed()),
        len <= max_frame_len,
    ensures
        LengthDelimitedCodec::<F, L>::step(
            DecodeState::Head,
            max_frame_len,
            be_bytes(len as nat, L::width()) + rest,
        ).outcome == Ok::<Option<F::Model>, FrameError<Error, <F as Decoder>::Error>>(None),
        LengthDelimitedCodec::<F, L>::step(
            DecodeState::Head,
            max_frame_len,
            be_bytes(len as nat, L::width()) + rest,
        ).state == DecodeState::Data(len),
        LengthDelimitedCodec::<F, L>::step(
            DecodeState::Head,
            max_frame_len,
            be_bytes(len as nat, L::width()) + rest,
        ).rest == rest,
{
    lemma_len_round_trip::<L>(len, rest);
}

/// Oversize rejection, at the limit: with a limit of `max_frame_len`, a
/// length of one more, written in the integer type `L`, ends the stream
/// with the error for it, whatever follows the length; the decoder does not
/// come to wait for a body.
pub proof fn lemma_one_over_the_limit<F, L>(max_frame_len: usize, rest: Seq<u8>)
    where F: Modeled + Decoder + Encoder, L: WireInt
    requires
        max_frame_len < usize::MAX,
        fits(max_frame_len + 1, L::width(), L::signed()),
    ensures
        LengthDelimitedCodec::<F, L>::step(
            DecodeState::Head,
            max_frame_len,
            be_bytes((max_frame_len + 1) as nat, L::width()) + rest,
        ).outcome == Err::<Option<F::Model>, FrameError<Error, <F as Decoder>::Error>>(
            FrameError::Codec(frame_too_long()),
        ),
        LengthDelimitedCodec::<F, L>::step(
            DecodeState::Head,
            max_frame_len,
            be_bytes((max_frame_len + 1) as nat, L::width()) + rest,
        ).state == DecodeState::Head,
{
    lemma_len_round_trip::<L>((max_frame_len + 1) as usize, rest);
}

/// Round trip of a frame: what encoding wrote for `item`, with anything
/// after it, takes the decoder through one length and one body, and the
/// message is decoded from exactly the bytes that the encoding of `item`
/// wrote.
pub proof fn lemma_frame_round_trip<F, L>(max_frame_len: usize, item: &F, rest: Seq<u8>)
    where F: Modeled + Decoder + Encoder, L: WireInt
    requires
        <F as Encoder>::outcome(item) is Ok,
        <F as Encoder>::encoded(item).len() == <F as Encoder>::encoded_size(item),
        <F as Encoder>::encoded_size(item) <= max_frame_len,
        fits(<F as Encoder>::encoded_size(item) as int, L::width(), L::signed()),
    ensures
        ({
            let wire = LengthDelimitedCodec::<F, L>::framed(item) + rest;
            let head = LengthDelimitedCodec::<F, L>::step(DecodeState::Head, max_frame_len, wire);
            let body = LengthDelimitedCodec::<F, L>::step(head.state, max_frame_len, head.rest);
            &&& LengthDelimitedCodec::<F, L>::frame_outcome(item) is Ok
            &&& head.outcome == Ok::<Option<F::Model>, FrameError<Error, <F as Decoder>::Error>>(
                None,
            )
            &&& body.outcome == LengthDelimitedCodec::<F, L>::message(<F as Encoder>::encoded(item))
            &&& body.rest == rest
        }),
{
    let body = <F as Encoder>::encoded(item);
    let len = <F as Encoder>::encoded_size(item) as usize;
    let wire = LengthDelimitedCodec::<F, L>::framed(item) + rest;
    assert(wire =~= be_bytes(len as nat, L::width()) + (body + rest));
    lemma_frame_head::<F, L>(max_frame_len, len, body + rest);
    LengthDelimitedCodec::<F, L>::lemma_frame_boundary(max_frame_len, body, rest);
}

/// Two frames back to back: with the frames of the bodies `a` and `b` in
/// the cursor, four steps read the first length, hand out the message of
/// `a`, read the second length and hand out the message of `b`. Each
/// message is decoded from its own body alone, and after the first the
/// cursor holds the second frame whole.
pub proof fn lemma_two_frames<F, L>(max_frame_len: usize, a: Seq<u8>, b: Seq<u8>)
    where F: Modeled + Decoder + Encoder, L: WireInt
    requires
        a.len() <= max_frame_len,
        b.len() <= max_frame_len,
        fits(a.len() as int, L::width(), L::signed()),
        fits(b.len() as int, L::width(), L::signed()),
    ensures
        ({
            let second = be_bytes(b.len(), L::width()) + b;
            let stream = be_bytes(a.len(), L::width()) + a + second;
            let first_head = LengthDelimitedCodec::<F, L>::step(
                DecodeState::Head,
                max_frame_len,
                stream,
            );
            let first_body = LengthDelimitedCodec::<F, L>::step(
                first_head.state,
                max_frame_len,
                first_head.rest,
            );
            let second_head = LengthDelimitedCodec::<F, L>::step(
                DecodeState::Head,
                max_frame_len,
                first_body.rest,
            );
            let second_body = LengthDelimitedCodec::<F, L>::step(
                second_head.state,
                max_frame_len,
                second_head.rest,
            );
            &&& first_head.outcome == Ok::<
                Option<F::Model>,
                FrameError<Error, <F as Decoder>::Error>,
            >(None)
            &&& first_head.state == DecodeState::Data(a.len() as usize)
            &&& first_body.outcome == LengthDelimitedCodec::<F, L>::message(a)
            &&& first_body.rest == second
            &&& second_head.outcome == Ok::<
                Option<F::Model>,
                FrameError<Error, <F as Decoder>::Error>,
            >(None)
            &&& second_head.state == DecodeState::Data(b.len() as usize)
            &&& second_body.outcome == LengthDelimitedCodec::<F, L>::message(b)
            &&& second_body.rest == Seq::<u8>::empty()
        }),
{
    let second = be_bytes(b.len(), L::width()) + b;
    let stream = be_bytes(a.len(), L::width()) + a + second;
    assert(stream =~= be_bytes(a.len(), L::width()) + (a + second));
    lemma_frame_head::<F, L>(max_frame_len, a.len() as usize, a + second);
    LengthDelimitedCodec::<F, L>::lemma_frame_boundary(max_frame_len, a, second);
    lemma_frame_head::<F, L>(max_frame_len, b.len() as usize, b);
    LengthDelimitedCodec::<F, L>::lemma_frame_boundary(max_frame_len, b, Seq::<u8>::empty());
}

} // verus!
