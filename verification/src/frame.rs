use crate::error::AnimationError;
use crate::pixel::{rgba_bytes, rgba_of, Pixel};
use vstd::prelude::*;

verus! {

/// What a frame is: a palette image.
pub struct FrameView {
    pub width: u16,
    pub height: u16,
    /// The frame's own colour table as red, green, blue triples.
    pub palette: Option<Seq<u8>>,
    /// One palette index per pixel, row-major.
    pub indices: Seq<u8>,
    /// The palette index that stands for full transparency, if any.
    pub transparent: Option<u8>,
}

impl FrameView {
    /// The frame can be encoded as it is: it has exactly one index per pixel
    /// and a colour table of its own with at most 256 entries.
    pub open spec fn encodable(self) -> bool {
        &&& self.indices.len() == self.width * self.height
        &&& self.palette matches Some(table) && table.len() <= 768
    }
}

/// A finished, immutable frame buffer: the palette image that the quantiser
/// made of one rendered RGBA buffer.
#[derive(Debug)]
pub struct Frame {
    pub(crate) width: u16,
    pub(crate) height: u16,
    pub(crate) palette: Option<Vec<u8>>,
    pub(crate) buffer: Vec<u8>,
    pub(crate) transparent: Option<u8>,
}

impl View for Frame {
    type V = FrameView;

    closed spec fn view(&self) -> FrameView {
        FrameView {
            width: self.width,
            height: self.height,
            palette: match self.palette {
                Some(table) => Some(table@),
                None => None,
            },
            indices: self.buffer@,
            transparent: self.transparent,
        }
    }
}

/// The views of the frames, in order.
pub open spec fn frame_views(frames: Seq<Frame>) -> Seq<FrameView> {
    Seq::new(frames.len(), |i: int| frames[i]@)
}

/// The palette image that `gif::Frame::from_rgba` makes of an RGBA buffer of
/// `width` x `height` pixels.
pub uninterp spec fn quantized(width: u16, height: u16, rgba: Seq<u8>) -> FrameView;

/// Calls `gif::Frame::from_rgba`, which reduces an RGBA buffer to at most 256
/// colours and rewrites every pixel as an index into that colour table, and
/// copies the fields of the frame it returns. The result depends on the
/// arguments alone. It keeps the given dimensions, has one index per pixel
/// and a colour table of at most 256 entries. The outside function panics
/// unless the buffer holds exactly four bytes per pixel.
#[verifier::external_body]
fn quantize(width: u16, height: u16, rgba: Vec<u8>) -> (frame: Frame)
    requires
        rgba@.len() == width * height * 4,
    ensures
        frame@ == quantized(width, height, rgba@),
        frame@.width == width,
        frame@.height == height,
        frame@.encodable(),
{
    let mut rgba = rgba;
    let image = gif::Frame::from_rgba(width, height, &mut rgba);
    Frame {
        width: image.width,
        height: image.height,
        palette: image.palette,
        buffer: image.buffer.into_owned(),
        transparent: image.transparent,
    }
}

/// Calls `gif::Frame::from_rgb` on no pixels at all. With nothing to
/// quantise, that function returns a frame of zero width and height with an
/// empty colour table, no indices and no transparent index.
#[verifier::external_body]
fn quantize_nothing() -> (frame: Frame)
    ensures
        frame@ == (FrameView {
            width: 0,
            height: 0,
            palette: Some(Seq::empty()),
            indices: Seq::empty(),
            transparent: None,
        }),
{
    let image = gif::Frame::from_rgb(0, 0, &[]);
    Frame {
        width: image.width,
        height: image.height,
        palette: image.palette,
        buffer: image.buffer.into_owned(),
        transparent: image.transparent,
    }
}

impl Clone for Frame {
    /// A second frame with the same content.
    fn clone(&self) -> (copy: Frame)
        ensures
            copy@ == self@,
    {
        proof {
            use_type_invariant(self);
        }
        let palette = match &self.palette {
            Some(table) => {
                let table = table.clone();
                Some(table)
            },
            None => None,
        };
        let buffer = self.buffer.clone();
        Frame {
            width: self.width,
            height: self.height,
            palette,
            buffer,
            transparent: self.transparent,
        }
    }
}

impl Frame {
    #[verifier::type_invariant]
    pub open spec fn inv(self) -> bool {
        self@.encodable()
    }

    /// The frame without pixels: zero width, zero height, an empty colour
    /// table.
    pub fn empty() -> (frame: Frame)
        ensures
            frame@ == (FrameView {
                width: 0,
                height: 0,
                palette: Some(Seq::empty()),
                indices: Seq::empty(),
                transparent: None,
            }),
    {
        quantize_nothing()
    }

    /// Quantises a rendered pixel buffer into a frame.
    ///
    /// The buffer must hold exactly `width * height` pixels, row-major; any
    /// other length is a failed render task.
    pub fn from_pixels(width: u16, height: u16, pixels: Vec<Pixel>) -> (result: Result<
        Frame,
        AnimationError,
    >)
        ensures
            result is Ok <==> pixels@.len() == width * height,
            result matches Ok(frame) ==> {
                &&& frame@ == quantized(width, height, rgba_of(pixels@))
                &&& frame@.width == width
                &&& frame@.height == height
                &&& frame@.encodable()
            },
            result matches Err(e) ==> e == AnimationError::FrameCreateError,
    {
        assert(width * height <= 0xffff * 0xffff) by (nonlinear_arith)
            requires
                width <= 0xffff,
                height <= 0xffff,
        ;
        if pixels.len() as u64 != width as u64 * height as u64 {
            return Err(AnimationError::FrameCreateError);
        }
        let rgba = rgba_bytes(&pixels);
        Ok(quantize(width, height, rgba))
    }

    /// The frame's width in pixels.
    pub fn width(&self) -> (width: u16)
        ensures
            width == self@.width,
    {
        self.width
    }

    /// The frame's height in pixels.
    pub fn height(&self) -> (height: u16)
        ensures
            height == self@.height,
    {
        self.height
    }

    /// The frame's colour table as red, green, blue triples.
    pub fn palette(&self) -> (table: Option<&Vec<u8>>)
        ensures
            match table {
                Some(entries) => self@.palette == Some(entries@),
                None => self@.palette is None,
            },
    {
        match &self.palette {
            Some(entries) => Some(entries),
            None => None,
        }
    }

    /// The frame's pixels as indices into its colour table, row-major.
    pub fn indices(&self) -> (indices: &Vec<u8>)
        ensures
            indices@ == self@.indices,
    {
        &self.buffer
    }

    /// The index that stands for a fully transparent pixel, if the frame has
    /// one.
    pub fn transparent(&self) -> (index: Option<u8>)
        ensures
            index == self@.transparent,
    {
        self.transparent
    }
}

} // verus!
