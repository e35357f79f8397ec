//! Raw image data as the notification protocol carries it, and the test images that the
//! notification tester sends.
use vstd::prelude::*;

verus! {

/// An image in the notification protocol's raw format: rows of `rowstride` bytes, each pixel
/// `channels` samples.
#[derive(Debug, PartialEq, Eq)]
pub struct ImageData {
    pub width: i32,
    pub height: i32,
    pub rowstride: i32,
    pub has_alpha: bool,
    pub bits_per_sample: i32,
    pub channels: i32,
    pub data: Vec<u8>,
}

/// Red, green, blue, black.
pub open spec fn opaque_16_pattern() -> Seq<u8> {
    seq![0xFF, 0x00, 0x00, 0x00, 0xFF, 0x00, 0x00, 0x00, 0xFF, 0x00, 0x00, 0x00]
}

/// Opaque red, green, blue; half transparent yellow, cyan, purple.
pub open spec fn translucent_24_pattern() -> Seq<u8> {
    seq![
        0xFF, 0x00, 0x00, 0xFF, 0x00, 0xFF, 0x00, 0xFF, 0x00, 0x00, 0xFF, 0xFF,
        0xFF, 0xFF, 0x00, 0x80, 0x00, 0xFF, 0xFF, 0x80, 0xFF, 0x00, 0xFF, 0x80,
    ]
}

/// Red, green, blue, black, white, yellow, cyan, purple.
pub open spec fn opaque_128_colors() -> Seq<u8> {
    seq![
        0xFF, 0x00, 0x00, 0x00, 0xFF, 0x00, 0x00, 0x00, 0xFF, 0x00, 0x00, 0x00,
        0xFF, 0xFF, 0xFF, 0xFF, 0xFF, 0x00, 0x00, 0xFF, 0xFF, 0xFF, 0x00, 0xFF,
    ]
}

/// Red, green, blue, white, cyan, purple, black, all at 80% opacity.
pub open spec fn translucent_240_pattern() -> Seq<u8> {
    seq![
        0xFF, 0x00, 0x00, 0xCC, 0x00, 0xFF, 0x00, 0xCC, 0x00, 0x00, 0xFF, 0xCC,
        0xFF, 0xFF, 0xFF, 0xCC, 0x00, 0xFF, 0xFF, 0xCC, 0xFF, 0x00, 0xFF, 0xCC,
        0x00, 0x00, 0x00, 0xCC,
    ]
}

/// The bytes of `pattern` repeated to `len` bytes.
pub open spec fn repeated(pattern: Seq<u8>, len: nat) -> Seq<u8> {
    Seq::new(len, |i: int| pattern[i % pattern.len() as int])
}

/// The bytes of a 128-pixel image: eight bands of 1024 pixels, one per colour, twice over.
pub open spec fn banded_128(i: int) -> u8 {
    let j = i % 24576;
    opaque_128_colors()[(j / 3072) * 3 + j % 3]
}

fn fill_repeated(pattern: &[u8], len: usize) -> (ret: Vec<u8>)
    requires
        pattern@.len() > 0,
    ensures
        ret@ == repeated(pattern@, len as nat),
{
    let mut ret: Vec<u8> = Vec::new();
    for i in 0..len
        invariant
            pattern@.len() > 0,
            ret@.len() == i,
            forall|j: int| 0 <= j < i ==> ret@[j] == pattern@[j % pattern@.len() as int],
    {
        ret.push(pattern[i % pattern.len()]);
    }
    assert(ret@ =~= repeated(pattern@, len as nat));
    ret
}

/// The 16x16 opaque test image: red, green, blue and black pixels in turn.
pub fn create_16x16_image_data() -> (ret: ImageData)
    ensures
        ret.width == 16 && ret.height == 16 && ret.rowstride == 48,
        !ret.has_alpha && ret.bits_per_sample == 3 && ret.channels == 3,
        ret.data@ == repeated(opaque_16_pattern(), 768),
{
    let pattern: [u8; 12] = [0xFF, 0x00, 0x00, 0x00, 0xFF, 0x00, 0x00, 0x00, 0xFF, 0x00, 0x00, 0x00];
    assert(pattern@ == opaque_16_pattern());
    ImageData {
        width: 16,
        height: 16,
        rowstride: 16 * 3,
        has_alpha: false,
        bits_per_sample: 3,
        channels: 3,
        data: fill_repeated(&pattern, 768),
    }
}

/// The 24x24 translucent test image: opaque red, green, blue and half transparent yellow,
/// cyan, purple pixels in turn.
pub fn create_24x24_image_data() -> (ret: ImageData)
    ensures
        ret.width == 24 && ret.height == 24 && ret.rowstride == 96,
        ret.has_alpha && ret.bits_per_sample == 4 && ret.channels == 4,
        ret.data@ == repeated(translucent_24_pattern(), 2304),
{
    let pattern: [u8; 24] = [
        0xFF, 0x00, 0x00, 0xFF, 0x00, 0xFF, 0x00, 0xFF, 0x00, 0x00, 0xFF, 0xFF,
        0xFF, 0xFF, 0x00, 0x80, 0x00, 0xFF, 0xFF, 0x80, 0xFF, 0x00, 0xFF, 0x80,
    ];
    assert(pattern@ == translucent_24_pattern());
    ImageData {
        width: 24,
        height: 24,
        rowstride: 24 * 4,
        has_alpha: true,
        bits_per_sample: 4,
        channels: 4,
        data: fill_repeated(&pattern, 2304),
    }
}

/// The 128x128 opaque test image: eight bands of 1024 pixels, one per colour, twice over.
pub fn create_128x128_image_data() -> (ret: ImageData)
    ensures
        ret.width == 128 && ret.height == 128 && ret.rowstride == 384,
        !ret.has_alpha && ret.bits_per_sample == 3 && ret.channels == 3,
        ret.data@.len() == 49152,
        forall|i: int| 0 <= i < 49152 ==> ret.data@[i] == banded_128(i),
{
    let colors: [u8; 24] = [
        0xFF, 0x00, 0x00, 0x00, 0xFF, 0x00, 0x00, 0x00, 0xFF, 0x00, 0x00, 0x00,
        0xFF, 0xFF, 0xFF, 0xFF, 0xFF, 0x00, 0x00, 0xFF, 0xFF, 0xFF, 0x00, 0xFF,
    ];
    assert(colors@ == opaque_128_colors());
    let mut data: Vec<u8> = Vec::new();
    for i in 0..49152usize
        invariant
            colors@ == opaque_128_colors(),
            data@.len() == i,
            forall|j: int| 0 <= j < i ==> data@[j] == banded_128(j),
    {
        let j = i % 24576;
        data.push(colors[(j / 3072) * 3 + j % 3]);
    }
    ImageData {
        width: 128,
        height: 128,
        rowstride: 128 * 3,
        has_alpha: false,
        bits_per_sample: 3,
        channels: 3,
        data,
    }
}

/// The 240x240 translucent test image: seven colours at 80% opacity in turn, with the
/// last rows left zero.
pub fn create_240x240_image_data() -> (ret: ImageData)
    ensures
        ret.width == 240 && ret.height == 240 && ret.rowstride == 960,
        ret.has_alpha && ret.bits_per_sample == 4 && ret.channels == 4,
        ret.data@.len() == 230400,
        forall|i: int| 0 <= i < 201600 ==> ret.data@[i] == translucent_240_pattern()[i % 28],
        forall|i: int| 201600 <= i < 230400 ==> ret.data@[i] == 0,
{
    let pattern: [u8; 28] = [
        0xFF, 0x00, 0x00, 0xCC, 0x00, 0xFF, 0x00, 0xCC, 0x00, 0x00, 0xFF, 0xCC,
        0xFF, 0xFF, 0xFF, 0xCC, 0x00, 0xFF, 0xFF, 0xCC, 0xFF, 0x00, 0xFF, 0xCC,
        0x00, 0x00, 0x00, 0xCC,
    ];
    assert(pattern@ == translucent_240_pattern());
    let mut data = fill_repeated(&pattern, 201600);
    for i in 201600..230400usize
        invariant
            data@.len() == i,
            forall|j: int| 0 <= j < 201600 ==> data@[j] == translucent_240_pattern()[j % 28],
            forall|j: int| 201600 <= j < i ==> data@[j] == 0,
    {
        data.push(0);
    }
    ImageData {
        width: 240,
        height: 240,
        rowstride: 240 * 4,
        has_alpha: true,
        bits_per_sample: 4,
        channels: 4,
        data,
    }
}

} // verus!
