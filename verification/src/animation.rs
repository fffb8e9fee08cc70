use crate::error::AnimationError;
use crate::frame::{frame_views, Frame, FrameView};
use vstd::prelude::*;

verus! {

/// A GIF stream under construction: a `gif::Encoder` that writes into a
/// buffer in memory. The encoder is opaque; all that is said of it is which
/// bytes it has written, under the name `written`.
#[verifier::external_body]
pub struct GifStream {
    encoder: gif::Encoder<Vec<u8>>,
}

/// The error type of the `gif` encoder. Nothing is known of its values.
#[verifier::external_type_specification]
#[verifier::external_body]
pub struct ExEncodingError(gif::EncodingError);

/// The bytes that the stream's encoder has written so far.
pub uninterp spec fn written(stream: GifStream) -> Seq<u8>;

/// The bytes that `gif::Encoder::write_frame` writes for a frame shown for
/// `delay` hundredths of a second: its control extension, image descriptor,
/// colour table and compressed indices.
pub uninterp spec fn frame_block(frame: FrameView, delay: u16) -> Seq<u8>;

/// The low byte of a 16-bit value.
pub open spec fn low_byte(value: u16) -> u8 {
    (value % 256) as u8
}

/// The high byte of a 16-bit value.
pub open spec fn high_byte(value: u16) -> u8 {
    (value / 256) as u8
}

/// The head of a GIF stream without a global palette: the signature
/// `GIF89a`, the canvas size in little-endian order, the packed flags, the
/// background index, the aspect ratio and the two all-zero entries of the
/// smallest colour table that the format allows.
pub open spec fn gif_header(width: u16, height: u16) -> Seq<u8> {
    seq![
        0x47u8,
        0x49u8,
        0x46u8,
        0x38u8,
        0x39u8,
        0x61u8,
        low_byte(width),
        high_byte(width),
        low_byte(height),
        high_byte(height),
        0x80u8,
        0u8,
        0u8,
        0u8,
        0u8,
        0u8,
        0u8,
        0u8,
        0u8,
    ]
}

/// The byte that ends a GIF stream.
pub const GIF_TRAILER: u8 = 0x3B;

/// The blocks of `frames` one after the other, each with the same delay.
pub open spec fn frame_blocks(frames: Seq<FrameView>, delay: u16) -> Seq<u8>
    decreases frames.len(),
{
    if frames.len() == 0 {
        Seq::empty()
    } else {
        frame_blocks(frames.drop_last(), delay) + frame_block(frames.last(), delay)
    }
}

/// Calls `gif::Encoder::new` with an empty in-memory buffer as the sink and
/// no global palette. The outside function rejects a palette of more than
/// 256 colours and passes on the errors of its sink; an empty palette is
/// always accepted and a buffer in memory takes every write, so the call
/// succeeds, and the encoder has then written the stream head for the given
/// canvas size and nothing else.
#[verifier::external_body]
fn stream_open(width: u16, height: u16) -> (opened: Result<GifStream, gif::EncodingError>)
    ensures
        opened is Ok,
        opened matches Ok(stream) ==> written(stream) == gif_header(width, height),
{
    gif::Encoder::new(Vec::new(), width, height, &[]).map(|encoder| GifStream { encoder })
}

/// Calls `gif::Encoder::write_frame` on the frame with the given delay.
/// The outside function rejects a frame with fewer indices than pixels, with
/// no colour table or with one of more than 256 colours, none of which an
/// encodable frame is. Its one other error is a refused reservation of
/// memory for the compressed indices; memory is taken to be there, as for
/// every other allocation. So the call succeeds, and the frame's block has
/// then been appended to what the encoder had written. The outside
/// function's own sanity check, that a frame of no pixels carries no
/// indices, is met by every encodable frame.
#[verifier::external_body]
fn stream_write_frame(stream: &mut GifStream, frame: &Frame, delay: u16) -> (outcome: Result<
    (),
    gif::EncodingError,
>)
    requires
        frame@.encodable(),
    ensures
        outcome is Ok,
        outcome is Ok ==> written(*final(stream)) == written(*old(stream)) + frame_block(
            frame@,
            delay,
        ),
{
    let image = gif::Frame {
        delay,
        width: frame.width,
        height: frame.height,
        transparent: frame.transparent,
        palette: frame.palette.clone(),
        buffer: std::borrow::Cow::Borrowed(&frame.buffer),
        ..gif::Frame::default()
    };
    stream.encoder.write_frame(&image)
}

/// Calls `gif::Encoder::into_inner`, which writes the trailer byte and
/// hands the buffer back. It fails only where the sink refuses the byte or
/// is gone; a buffer in memory that the encoder still holds does neither.
/// So the call succeeds, and the buffer holds what the encoder had written,
/// followed by the trailer.
#[verifier::external_body]
fn stream_finish(stream: GifStream) -> (finished: Result<Vec<u8>, gif::EncodingError>)
    ensures
        finished is Ok,
        finished matches Ok(bytes) ==> bytes@ == written(stream).push(GIF_TRAILER),
{
    stream.encoder.into_inner()
}

/// A framerate as a fraction: `frames` frames are shown in `seconds`
/// seconds. Twenty-four frames per second are 24 in 1; the 29.97 of
/// television are 30000 in 1001.
#[derive(Debug, Clone, Copy, PartialEq, Eq)]
pub struct Framerate {
    pub frames: u32,
    pub seconds: u32,
}

/// The delay between frames in hundredths of a second: 100 divided by the
/// framerate, rounded to the nearest integer, halves up, and no more than
/// the format's 16 bits hold. A framerate of no frames at all gives the
/// longest delay.
pub open spec fn delay_of(framerate: Framerate) -> int {
    if framerate.frames == 0 {
        u16::MAX as int
    } else {
        let rounded = (200 * framerate.seconds + framerate.frames) / (2 * framerate.frames);
        if rounded > u16::MAX {
            u16::MAX as int
        } else {
            rounded
        }
    }
}

/// `delay` is `100 * seconds / frames` rounded to the nearest integer, the
/// upper one where two are equally near.
pub open spec fn is_nearest_delay(framerate: Framerate, delay: int) -> bool {
    (2 * delay - 1) * framerate.frames <= 200 * framerate.seconds < (2 * delay + 1)
        * framerate.frames
}

/// `delay` is the delay of `framerate`, said without a division: the
/// nearest integer to `100 * seconds / frames` where that is below the
/// largest 16-bit value, and that largest value otherwise.
pub open spec fn is_delay(framerate: Framerate, delay: int) -> bool {
    if framerate.frames > 0 && 200 * framerate.seconds < (2 * u16::MAX - 1) * framerate.frames {
        is_nearest_delay(framerate, delay)
    } else {
        delay == u16::MAX
    }
}

/// Rounding law: `delay_of` is a 16-bit value, and it is the nearest integer
/// to 100 divided by the framerate, or the largest 16-bit value where the
/// nearest integer is not below it.
pub proof fn lemma_delay_is_nearest(framerate: Framerate)
    ensures
        0 <= delay_of(framerate) <= u16::MAX,
        is_delay(framerate, delay_of(framerate)),
{
    if framerate.frames > 0 {
        let f = framerate.frames as int;
        let s = framerate.seconds as int;
        let n = 200 * s + f;
        let m = 2 * f;
        let q = n / m;
        assert(n == m * q + n % m && 0 <= n % m < m) by {
            vstd::arithmetic::div_mod::lemma_fundamental_div_mod(n, m);
            vstd::arithmetic::div_mod::lemma_mod_bound(n, m);
        }
        assert(0 <= q && (2 * q - 1) * f <= 200 * s < (2 * q + 1) * f) by (nonlinear_arith)
            requires
                f > 0,
                s >= 0,
                n == 200 * s + f,
                m == 2 * f,
                n == m * q + n % m,
                0 <= n % m < m,
        ;
        let top = u16::MAX as int;
        assert(q < top <==> 200 * s < (2 * top - 1) * f) by (nonlinear_arith)
            requires
                f > 0,
                (2 * q - 1) * f <= 200 * s < (2 * q + 1) * f,
        ;
    }
}

/// The delay between frames for a framerate.
pub fn frame_delay(framerate: Framerate) -> (delay: u16)
    ensures
        delay == delay_of(framerate),
        is_delay(framerate, delay as int),
{
    proof {
        lemma_delay_is_nearest(framerate);
    }
    if framerate.frames == 0 {
        u16::MAX
    } else {
        let rounded: u64 = (200 * (framerate.seconds as u64) + framerate.frames as u64) / (2 * (
        framerate.frames as u64));
        if rounded > u16::MAX as u64 {
            u16::MAX
        } else {
            rounded as u16
        }
    }
}

/// What an animation is.
pub struct AnimationView {
    /// The display time of every frame in hundredths of a second.
    pub delay: u16,
    /// The bytes of the stream that are already written.
    pub written: Seq<u8>,
    /// The frames that wait to be written, in display order.
    pub frames: Seq<FrameView>,
}

/// An animation in the making: frames in display order, the one delay they
/// share, and the stream that they will be written to.
pub struct Animation {
    delay: u16,
    stream: GifStream,
    frames: Vec<Frame>,
}

impl View for Animation {
    type V = AnimationView;

    closed spec fn view(&self) -> AnimationView {
        AnimationView {
            delay: self.delay,
            written: written(self.stream),
            frames: frame_views(self.frames@),
        }
    }
}

/// The library's error for an encoder's verdict on a frame or on the end of
/// the stream.
pub fn encode_outcome<T>(outcome: Result<T, gif::EncodingError>) -> (result: Result<
    T,
    AnimationError,
>)
    ensures
        outcome matches Ok(value) ==> result == Ok::<T, AnimationError>(value),
        outcome is Err ==> result == Err::<T, AnimationError>(AnimationError::FrameEncodeError),
{
    match outcome {
        Ok(value) => Ok(value),
        Err(_) => Err(AnimationError::FrameEncodeError),
    }
}

impl Animation {
    /// The empty animation on an opened stream, or the error for a stream
    /// that could not be opened.
    pub fn on_stream(opened: Result<GifStream, gif::EncodingError>, framerate: Framerate) -> (result:
        Result<Animation, AnimationError>)
        ensures
            opened matches Ok(stream) ==> (result matches Ok(animation) && animation@ == (
            AnimationView {
                delay: delay_of(framerate) as u16,
                written: written(stream),
                frames: Seq::empty(),
            }) && is_delay(framerate, animation@.delay as int)),
            opened is Err ==> (result matches Err(e) && e == AnimationError::EncoderError),
    {
        match opened {
            Ok(stream) => {
                let animation = Animation {
                    delay: frame_delay(framerate),
                    stream,
                    frames: Vec::new(),
                };
                assert(animation@.frames =~= Seq::empty());
                Ok(animation)
            },
            Err(_) => Err(AnimationError::EncoderError),
        }
    }

    /// Starts an animation of the given canvas size and framerate: opens the
    /// stream, which writes its head, and fixes the delay of every frame.
    /// A stream in memory always opens.
    pub fn new(width: u16, height: u16, framerate: Framerate) -> (result: Result<
        Animation,
        AnimationError,
    >)
        ensures
            result is Ok,
            result matches Ok(animation) ==> animation@ == (AnimationView {
                delay: delay_of(framerate) as u16,
                written: gif_header(width, height),
                frames: Seq::empty(),
            }) && is_delay(framerate, animation@.delay as int),
    {
        Animation::on_stream(stream_open(width, height), framerate)
    }

    /// The display time of every frame in hundredths of a second.
    pub fn delay(&self) -> (delay: u16)
        ensures
            delay == self@.delay,
    {
        self.delay
    }

    /// The number of frames added so far.
    pub fn frame_count(&self) -> (count: usize)
        ensures
            count == self@.frames.len(),
    {
        self.frames.len()
    }

    /// Appends frames behind those already added, keeping their order.
    pub fn add_frames(&mut self, frames: Vec<Frame>)
        ensures
            final(self)@ == (AnimationView {
                frames: old(self)@.frames + frame_views(frames@),
                ..old(self)@
            }),
    {
        let mut frames = frames;
        let ghost added = frames@;
        self.frames.append(&mut frames);
        assert(frame_views(self.frames@) =~= frame_views(old(self).frames@) + frame_views(added));
    }

    /// Writes every frame to the stream in order, each with the animation's
    /// delay, ends the stream and returns its bytes. Every frame is
    /// encodable and the stream is in memory, so the encoder takes them all.
    pub fn write_animation(self) -> (result: Result<Vec<u8>, AnimationError>)
        ensures
            result is Ok,
            result matches Ok(bytes) ==> bytes@ == (self@.written + frame_blocks(
                self@.frames,
                self@.delay,
            )).push(GIF_TRAILER),
    {
        let Animation { delay, stream, frames } = self;
        let mut stream = stream;
        let ghost head = written(stream);
        let ghost views = frame_views(frames@);
        let mut i: usize = 0;
        assert(views.take(0) =~= Seq::empty());
        while i < frames.len()
            invariant
                0 <= i <= frames@.len(),
                views == frame_views(frames@),
                written(stream) == head + frame_blocks(views.take(i as int), delay),
            decreases frames@.len() - i,
        {
            let frame = &frames[i];
            proof {
                use_type_invariant(frame);
                assert(views.take(i + 1).drop_last() =~= views.take(i as int));
                assert(views.take(i + 1).last() == frame@);
            }
            match encode_outcome(stream_write_frame(&mut stream, frame, delay)) {
                Ok(()) => {},
                Err(e) => {
                    return Err(e);
                },
            }
            i = i + 1;
        }
        assert(views.take(frames@.len() as int) =~= views);
        encode_outcome(stream_finish(stream))
    }
}

} // verus!
