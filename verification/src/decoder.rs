use crate::error::ErrorKind;
use openh264::decoder::Decoder;
use openh264::formats::YUVSource;
use vstd::prelude::*;

verus! {

/// The longest access unit that the decoder takes in one call.
pub const MAX_UNIT_LEN: usize = 0x7fff_ffff;

/// `openh264::decoder::Decoder`, carried through as an opaque value.
#[verifier::external_type_specification]
#[verifier::external_body]
pub struct ExDecoder(openh264::decoder::Decoder);

/// `openh264::Error`, carried through as an opaque value.
#[verifier::external_type_specification]
#[verifier::external_body]
pub struct ExDecoderError(openh264::Error);

/// `Decoder::new` makes a decoder with default settings, or fails. Nothing is claimed
/// of which.
pub assume_specification[ openh264::decoder::Decoder::new ]() -> (decoder: Result<
    openh264::decoder::Decoder,
    openh264::Error,
>)
;

/// A decoded picture: three planes of samples, luma at full size and the two chroma
/// planes at half size each way, each row padded to its stride.
#[derive(Debug, Clone, PartialEq, Eq)]
pub struct Frame {
    pub width: usize,
    pub height: usize,
    pub luma_stride: usize,
    pub chroma_stride: usize,
    pub y: Vec<u8>,
    pub u: Vec<u8>,
    pub v: Vec<u8>,
}

/// Feeds one access unit to the decoder and copies out the picture, if one came.
///
/// Calls `Decoder::decode` and reads the picture through `YUVSource`. Nothing is claimed
/// of the outcome; units longer than `MAX_UNIT_LEN` are kept from the decoder, which
/// counts the bytes in 32 bits.
#[verifier::external_body]
fn decode_with(decoder: &mut Decoder, unit: &[u8]) -> (decoded: Result<
    Option<Frame>,
    openh264::Error,
>)
    requires
        unit@.len() <= MAX_UNIT_LEN,
{
    decoder.decode(unit).map(|picture| picture.map(|yuv| Frame {
        width: yuv.dimensions().0,
        height: yuv.dimensions().1,
        luma_stride: yuv.strides().0,
        chroma_stride: yuv.strides().1,
        y: yuv.y().to_vec(),
        u: yuv.u().to_vec(),
        v: yuv.v().to_vec(),
    }))
}

/// What the decoder's answer means to the caller: a picture, no picture yet, or a
/// rejected unit.
pub fn conclude(decoded: Result<Option<Frame>, openh264::Error>) -> (r: Result<
    Option<Frame>,
    ErrorKind,
>)
    ensures
        r == match decoded {
            Ok(picture) => Ok::<Option<Frame>, ErrorKind>(picture),
            Err(_) => Err(ErrorKind::Decode),
        },
{
    match decoded {
        Ok(picture) => Ok(picture),
        Err(_) => Err(ErrorKind::Decode),
    }
}

/// Hands one reassembled access unit to a fresh decoder.
///
/// Returns the picture, `None` where the decoder wants more data before it has one, and
/// `Decode` where it rejects the unit or cannot be set up. A unit longer than
/// `MAX_UNIT_LEN` is refused with `BufferLimit` and never reaches the decoder.
pub fn decode_access_unit(unit: &[u8]) -> (r: Result<Option<Frame>, ErrorKind>)
    ensures
        unit@.len() > MAX_UNIT_LEN <==> r == Err::<Option<Frame>, ErrorKind>(ErrorKind::BufferLimit),
        r is Err ==> r == Err::<Option<Frame>, ErrorKind>(ErrorKind::BufferLimit) || r == Err::<
            Option<Frame>,
            ErrorKind,
        >(ErrorKind::Decode),
{
    if unit.len() > MAX_UNIT_LEN {
        return Err(ErrorKind::BufferLimit);
    }
    match Decoder::new() {
        Ok(mut decoder) => conclude(decode_with(&mut decoder, unit)),
        Err(_) => Err(ErrorKind::Decode),
    }
}

} // verus!
