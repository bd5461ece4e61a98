//! The LED strip: pixels with their colour and index, the strip built from a
//! scope and a list of colours, and the fixed-size packet the strip is sent as.
use vstd::prelude::*;

verus! {

/// `std::io::Error`, the error type of `std::io::Result`, carried through unopened.
#[verifier::external_type_specification]
#[verifier::external_body]
pub struct ExIoError(std::io::Error);

/// A colour as its red, green and blue bytes.
pub type PixelColour = [u8; 3];

/// A position in up to three dimensions.
pub struct Coordinate {
    pub x: u8,
    pub y: u8,
    pub z: u8,
}

/// One LED: its colour, whether it is on, and its index on the strip.
#[derive(Clone, Copy, Debug)]
pub struct Pixel {
    pub colour: PixelColour,
    pub on_status: bool,
    pub index: u8,
}

impl Pixel {
    /// A pixel that is on, with the colour and index given, black and 0 where
    /// none is given.
    pub fn new(setup_colour: Option<PixelColour>, setup_index: Option<u8>) -> (pixel: Pixel)
        ensures
            setup_colour matches Some(c) ==> pixel.colour == c,
            setup_colour is None ==> pixel.colour@ == seq![0u8, 0u8, 0u8],
            pixel.on_status,
            pixel.index == (match setup_index {
                Some(i) => i,
                None => 0u8,
            }),
    {
        let mut prologue_colour: PixelColour = [0u8; 3];
        if let Some(x) = setup_colour {
            prologue_colour = x;
        }
        let mut prologue_index: u8 = 0u8;
        if let Some(x) = setup_index {
            prologue_index = x;
        }
        Pixel { colour: prologue_colour, on_status: true, index: prologue_index }
    }
}

/// A range `[start, end)` of the strip together with its length.
#[derive(Clone, Copy, Debug, PartialEq, Eq, Structural)]
pub struct Scope {
    pub start: usize,
    pub end: usize,
    pub size: usize,
}

impl Scope {
    /// The scope `[init_start, init_end)`; the range must not be empty.
    pub fn new(init_start: usize, init_end: usize) -> (r: Result<Scope, ()>)
        requires
            init_start < init_end,
        ensures
            r == Ok::<Scope, ()>(Scope { start: init_start, end: init_end, size: (init_end - init_start) as usize }),
    {
        Ok(Scope { start: init_start, end: init_end, size: init_end - init_start })
    }
}

/// A borrowed series of data points with its scope and, where a transform
/// was given, the transform's output.
pub struct Sample<'a, SampleType, TransformType> {
    pub data: &'a Vec<SampleType>,
    pub scope: Scope,
    pub output_data: Option<TransformType>,
}

impl<T, R: Default> Sample<'static, T, R> {
    /// A sample over `input_data`; the transform, where given, is applied to
    /// the data once and its result kept.
    pub fn new<F: Fn(&Vec<T>) -> R>(input_data: &'static Vec<T>, input_scope: Scope, data_transform: Option<F>) -> (sample: Sample<'static, T, R>)
        requires
            data_transform matches Some(f) ==> f.requires((input_data,)),
        ensures
            *sample.data == *input_data,
            sample.scope == input_scope,
            data_transform is None ==> sample.output_data is None,
            data_transform matches Some(f) ==> (sample.output_data matches Some(out) && f.ensures(
                (input_data,),
                out,
            )),
    {
        let mut output: Option<R> = None;
        if let Some(transform_func) = data_transform {
            output = Some(transform_func(input_data));
        }
        Sample { data: input_data, scope: input_scope, output_data: output }
    }
}

/// The size in bytes of the packet a strip is sent as.
pub const DEFAULT_MESSAGE_SIZE: usize = 1024;

/// Each LED colour is the value of three bytes (r, g, b).
pub const COLOUR_SIZE: usize = 256 * 3;

/// A strip of LEDs.
pub struct PixelStrip {
    pub strip: Vec<Pixel>,
}

impl PixelStrip {
    /// A strip with one pixel for each position of the scope, the `idx`-th
    /// coloured `colours[idx]` and indexed `idx` (taken modulo 256). The scope
    /// may not be larger than the colour list, nor the list longer than the
    /// scope's size.
    pub fn new(scope: Scope, colours: Vec<PixelColour>) -> (r: std::io::Result<PixelStrip>)
        requires
            scope.size >= colours@.len(),
            scope.start <= scope.end,
            scope.end - scope.start <= colours@.len(),
        ensures
            r matches Ok(pixel_strip) && {
                &&& pixel_strip.strip@.len() == scope.end - scope.start
                &&& forall|i: int|
                    0 <= i < pixel_strip.strip@.len() ==> #[trigger] pixel_strip.strip@[i] == (Pixel {
                        colour: colours@[i],
                        on_status: true,
                        index: (i % 256) as u8,
                    })
            },
    {
        let count: usize = scope.end - scope.start;
        let mut pixel_strip: Vec<Pixel> = Vec::with_capacity(count);
        let mut idx: usize = 0;
        while idx < count
            invariant
                count == scope.end - scope.start,
                count <= colours@.len(),
                idx <= count,
                pixel_strip@.len() == idx,
                forall|i: int|
                    0 <= i < idx ==> #[trigger] pixel_strip@[i] == (Pixel {
                        colour: colours@[i],
                        on_status: true,
                        index: (i % 256) as u8,
                    }),
            decreases count - idx,
        {
            pixel_strip.push(Pixel::new(Some(colours[idx]), Some((idx % 256) as u8)));
            idx = idx + 1;
        }
        Ok(PixelStrip { strip: pixel_strip })
    }
}

/// Byte `k` of the packet for `strip`: the packet is cut into groups of four
/// bytes, and group `g` (bytes `4g..4g+4`) carries pixel `g` of the strip:
/// its index, then its three colour bytes. Groups past the strip's end are
/// zero, and pixels past the 256th are not sent.
pub open spec fn packet_byte(strip: Seq<Pixel>, k: int) -> u8 {
    let g = k / 4;
    if g < strip.len() {
        if k % 4 == 0 {
            strip[g].index
        } else if k % 4 == 1 {
            strip[g].colour@[0]
        } else if k % 4 == 2 {
            strip[g].colour@[1]
        } else {
            strip[g].colour@[2]
        }
    } else {
        0u8
    }
}

/// The packet layout: group `g` (bytes `4g..4g+4`) of a packet of
/// `DEFAULT_MESSAGE_SIZE` bytes carries pixel `g`'s own index and its red,
/// green and blue bytes, for every pixel the packet has room for; every
/// byte past the last pixel sent is zero.
pub proof fn law_packet_layout(strip: Seq<Pixel>, g: int, k: int)
    ensures
        0 <= g < strip.len() && g < DEFAULT_MESSAGE_SIZE / 4 ==> {
            &&& packet_byte(strip, 4 * g) == strip[g].index
            &&& packet_byte(strip, 4 * g + 1) == strip[g].colour@[0]
            &&& packet_byte(strip, 4 * g + 2) == strip[g].colour@[1]
            &&& packet_byte(strip, 4 * g + 3) == strip[g].colour@[2]
        },
        4 * strip.len() <= k < DEFAULT_MESSAGE_SIZE ==> packet_byte(strip, k) == 0u8,
{
    assert((4 * g) / 4 == g && (4 * g) % 4 == 0);
    assert((4 * g + 1) / 4 == g && (4 * g + 1) % 4 == 1);
    assert((4 * g + 2) / 4 == g && (4 * g + 2) % 4 == 2);
    assert((4 * g + 3) / 4 == g && (4 * g + 3) % 4 == 3);
}

/// Serialising a strip into the packet it is sent as.
pub trait PixelStripSerialize {
    fn get_packet(&self) -> std::io::Result<Box<[u8; 1024]>>;
}

impl PixelStripSerialize for PixelStrip {
    /// The `DEFAULT_MESSAGE_SIZE`-byte packet for the strip; see `packet_byte`.
    fn get_packet(&self) -> (r: std::io::Result<Box<[u8; 1024]>>)
        ensures
            r matches Ok(packet) && forall|k: int|
                0 <= k < DEFAULT_MESSAGE_SIZE ==> #[trigger] packet@[k] == packet_byte(self.strip@, k),
            r matches Ok(packet) && forall|g: int|
                0 <= g < self.strip@.len() && g < DEFAULT_MESSAGE_SIZE / 4 ==> {
                    &&& packet@[4 * g] == (#[trigger] self.strip@[g]).index
                    &&& packet@[4 * g + 1] == self.strip@[g].colour@[0]
                    &&& packet@[4 * g + 2] == self.strip@[g].colour@[1]
                    &&& packet@[4 * g + 3] == self.strip@[g].colour@[2]
                },
            r matches Ok(packet) && forall|k: int|
                4 * self.strip@.len() <= k < DEFAULT_MESSAGE_SIZE ==> #[trigger] packet@[k] == 0u8,
    {
        let pixel_strip = &self.strip;
        let mut packet_byte_array: [u8; 1024] = [0u8; 1024];
        let mut pixel_idx: usize = 0;
        while pixel_idx < DEFAULT_MESSAGE_SIZE
            invariant
                pixel_idx % 4 == 0,
                pixel_idx <= DEFAULT_MESSAGE_SIZE,
                packet_byte_array@.len() == DEFAULT_MESSAGE_SIZE,
                forall|k: int| 0 <= k < pixel_idx ==> #[trigger] packet_byte_array@[k] == packet_byte(pixel_strip@, k),
                forall|k: int| pixel_idx <= k < DEFAULT_MESSAGE_SIZE ==> #[trigger] packet_byte_array@[k] == 0u8,
            decreases DEFAULT_MESSAGE_SIZE - pixel_idx,
        {
            if pixel_idx / 4 < pixel_strip.len() {
                let pixel: Pixel = pixel_strip[pixel_idx / 4];
                packet_byte_array[pixel_idx] = pixel.index;
                packet_byte_array[pixel_idx + 1] = pixel.colour[0];
                packet_byte_array[pixel_idx + 2] = pixel.colour[1];
                packet_byte_array[pixel_idx + 3] = pixel.colour[2];
            }
            pixel_idx = pixel_idx + 4;
        }
        proof {
            assert forall|g: int| 0 <= g < pixel_strip@.len() && g < DEFAULT_MESSAGE_SIZE / 4 implies {
                &&& packet_byte_array@[4 * g] == (#[trigger] pixel_strip@[g]).index
                &&& packet_byte_array@[4 * g + 1] == pixel_strip@[g].colour@[0]
                &&& packet_byte_array@[4 * g + 2] == pixel_strip@[g].colour@[1]
                &&& packet_byte_array@[4 * g + 3] == pixel_strip@[g].colour@[2]
            } by {
                law_packet_layout(pixel_strip@, g, 0);
                assert(packet_byte_array@[4 * g] == packet_byte(pixel_strip@, 4 * g));
                assert(packet_byte_array@[4 * g + 1] == packet_byte(pixel_strip@, 4 * g + 1));
                assert(packet_byte_array@[4 * g + 2] == packet_byte(pixel_strip@, 4 * g + 2));
                assert(packet_byte_array@[4 * g + 3] == packet_byte(pixel_strip@, 4 * g + 3));
            }
            assert forall|k: int| 4 * pixel_strip@.len() <= k < DEFAULT_MESSAGE_SIZE implies #[trigger] packet_byte_array@[k] == 0u8 by {
                law_packet_layout(pixel_strip@, 0, k);
                assert(packet_byte_array@[k] == packet_byte(pixel_strip@, k));
            }
        }
        Ok(Box::new(packet_byte_array))
    }
}

} // verus!
