//! Colour conversion and palette indexing of a decoded image.

use vstd::prelude::*;

verus! {

/// One decoded pixel: four 8-bit channels.
#[derive(Clone, Copy, Debug, PartialEq, Eq, Structural)]
pub struct Rgba {
    pub red: u8,
    pub green: u8,
    pub blue: u8,
    pub alpha: u8,
}

/// The 15-bit colour word made of three channel values: the low five bits of
/// `b` above the low five bits of `g` above the low five bits of `r`.
pub open spec fn native_colour(r: u16, g: u16, b: u16) -> u16 {
    ((b % 32) * 1024 + (g % 32) * 32 + r % 32) as u16
}

/// The 15-bit colour word of a pixel. Red and blue lose their low three bits.
/// Green loses its low two bits and then its top bit. Alpha plays no part.
pub open spec fn colour_of(pixel: Rgba) -> u16 {
    native_colour((pixel.red / 8) as u16, (pixel.green / 4) as u16, (pixel.blue / 8) as u16)
}

/// The colour word written with masks and shifts is the one written with
/// remainders and products.
pub proof fn lemma_native_colour_bits(r: u16, g: u16, b: u16)
    ensures
        native_colour(r, g, b) == ((b & 0x1f) << 10 | (g & 0x1f) << 5 | (r & 0x1f)),
        native_colour(r, g, b) < 0x8000,
{
    assert(((b % 32) * 1024 + (g % 32) * 32 + r % 32) as u16 == ((b & 0x1f) << 10 | (g & 0x1f) << 5
        | (r & 0x1f))) by (bit_vector);
    assert(((b & 0x1f) << 10 | (g & 0x1f) << 5 | (r & 0x1f)) < 0x8000u16) by (bit_vector);
}

/// Packs three channel values into a 15-bit colour word.
pub fn from_rgb(r: u16, g: u16, b: u16) -> (colour: u16)
    ensures
        colour == native_colour(r, g, b),
        colour < 0x8000,
{
    proof {
        lemma_native_colour_bits(r, g, b);
    }
    (b & 0x1f) << 10 | (g & 0x1f) << 5 | (r & 0x1f)
}

/// Converts one pixel to its 15-bit colour word.
pub fn convert_colour(colour: &Rgba) -> (native: u16)
    ensures
        native == colour_of(*colour),
        native < 0x8000,
{
    let r: u8 = colour.red >> 3;
    let g: u8 = colour.green >> 2;
    let b: u8 = colour.blue >> 3;
    proof {
        let (red, green, blue) = (colour.red, colour.green, colour.blue);
        assert(red >> 3 == red / 8) by (bit_vector);
        assert(green >> 2 == green / 4) by (bit_vector);
        assert(blue >> 3 == blue / 8) by (bit_vector);
    }
    from_rgb(r as u16, g as u16, b as u16)
}

/// Pixels that agree in red, green and blue have the same colour word,
/// whatever their alpha: the conversion is a function of those three channels.
pub proof fn lemma_colour_ignores_alpha(a: Rgba, b: Rgba)
    requires
        a.red == b.red,
        a.green == b.green,
        a.blue == b.blue,
    ensures
        colour_of(a) == colour_of(b),
{
}

/// The colour words of a pixel sequence, pixel by pixel.
pub open spec fn colours_of(pixels: Seq<Rgba>) -> Seq<u16> {
    pixels.map_values(|p: Rgba| colour_of(p))
}

/// The distinct colours of a sequence, each at the place of its first
/// occurrence: the palette that a raster scan builds.
pub open spec fn palette_of(colours: Seq<u16>) -> Seq<u16>
    decreases colours.len(),
{
    if colours.len() == 0 {
        Seq::empty()
    } else {
        let earlier = palette_of(colours.drop_last());
        if earlier.contains(colours.last()) {
            earlier
        } else {
            earlier.push(colours.last())
        }
    }
}

/// `palette` and `data` are the palette and the index buffer of `pixels`:
/// the palette holds the colours in order of first occurrence, and each
/// pixel's index names its colour in the palette.
pub open spec fn indexes(palette: Seq<u16>, data: Seq<u16>, pixels: Seq<Rgba>) -> bool {
    &&& palette == palette_of(colours_of(pixels))
    &&& data.len() == pixels.len()
    &&& forall|i: int|
        0 <= i < pixels.len() ==> (#[trigger] data[i]) < palette.len() && palette[data[i] as int]
            == colour_of(pixels[i])
}

/// The colour of each pixel, looked up through its palette index.
pub open spec fn expanded(palette: Seq<u16>, data: Seq<u16>) -> Seq<u16> {
    Seq::new(data.len(), |i: int| palette[data[i] as int])
}

/// A palette holds no colour twice.
pub proof fn lemma_palette_unique(colours: Seq<u16>)
    ensures
        palette_of(colours).no_duplicates(),
    decreases colours.len(),
{
    if colours.len() > 0 {
        lemma_palette_unique(colours.drop_last());
    }
}

/// A palette holds exactly the colours of its sequence, and is no longer.
pub proof fn lemma_palette_complete(colours: Seq<u16>)
    ensures
        forall|c: u16| palette_of(colours).contains(c) <==> colours.contains(c),
        palette_of(colours).len() <= colours.len(),
    decreases colours.len(),
{
    let palette = palette_of(colours);
    if colours.len() > 0 {
        let front = colours.drop_last();
        let earlier = palette_of(front);
        lemma_palette_complete(front);
        assert forall|c: u16| palette.contains(c) <==> colours.contains(c) by {
            if colours.contains(c) {
                let i = choose|i: int| 0 <= i < colours.len() && colours[i] == c;
                if i < front.len() {
                    assert(front[i] == c);
                    assert(front.contains(c));
                    let j = choose|j: int| 0 <= j < earlier.len() && earlier[j] == c;
                    assert(palette[j] == c);
                } else if !earlier.contains(c) {
                    assert(palette[earlier.len() as int] == c);
                }
            }
            if palette.contains(c) {
                let j = choose|j: int| 0 <= j < palette.len() && palette[j] == c;
                if j < earlier.len() {
                    assert(earlier[j] == c);
                    assert(front.contains(c));
                    let i = choose|i: int| 0 <= i < front.len() && front[i] == c;
                    assert(colours[i] == c);
                } else {
                    assert(colours[colours.len() - 1] == c);
                }
            }
        }
    }
}

/// The palette of a longer scan starts with the palette of a shorter one:
/// an index, once given, is never given to another colour.
pub proof fn lemma_palette_grows(colours: Seq<u16>, n: int)
    requires
        0 <= n <= colours.len(),
    ensures
        palette_of(colours.take(n)).is_prefix_of(palette_of(colours)),
    decreases colours.len(),
{
    if n == colours.len() {
        assert(colours.take(n) =~= colours);
    } else {
        lemma_palette_grows(colours.drop_last(), n);
        assert(colours.drop_last().take(n) =~= colours.take(n));
    }
}

/// Palette entry 0 is the colour of the first pixel.
pub proof fn lemma_palette_first(colours: Seq<u16>)
    requires
        colours.len() > 0,
    ensures
        palette_of(colours).len() > 0,
        palette_of(colours)[0] == colours[0],
{
    lemma_palette_grows(colours, 1);
    let one = colours.take(1);
    let whole = palette_of(colours);
    assert(palette_of(one.drop_last()) =~= Seq::<u16>::empty());
    assert(palette_of(one) =~= seq![colours[0]]);
    assert(whole.subrange(0, 1)[0] == whole[0]);
}

/// A sequence of distinct 15-bit values has at most 32768 entries.
pub proof fn lemma_unique_colours_bounded(s: Seq<u16>)
    requires
        s.no_duplicates(),
        forall|i: int| 0 <= i < s.len() ==> s[i] < 0x8000,
    ensures
        s.len() <= 0x8000,
{
    let t = s.map_values(|c: u16| c as int);
    t.unique_seq_to_set();
    vstd::set_lib::lemma_int_range(0, 0x8000);
    assert(t.to_set().subset_of(vstd::set_lib::set_int_range(0, 0x8000))) by {
        assert forall|v: int| t.to_set().contains(v) implies vstd::set_lib::set_int_range(
            0,
            0x8000,
        ).contains(v) by {
            let i = choose|i: int| 0 <= i < t.len() && t[i] == v;
            assert(s[i] < 0x8000);
        }
    }
    vstd::set_lib::lemma_len_subset(t.to_set(), vstd::set_lib::set_int_range(0, 0x8000));
}

/// The same pixels have one palette and one index buffer: whatever meets
/// the description of the indexing is equal to whatever else meets it.
pub proof fn lemma_indexing_unique(
    pixels: Seq<Rgba>,
    palette1: Seq<u16>,
    data1: Seq<u16>,
    palette2: Seq<u16>,
    data2: Seq<u16>,
)
    requires
        indexes(palette1, data1, pixels),
        indexes(palette2, data2, pixels),
    ensures
        palette1 == palette2,
        data1 == data2,
{
    lemma_palette_unique(colours_of(pixels));
    assert forall|i: int| 0 <= i < data1.len() implies data1[i] == data2[i] by {
        assert(palette1[data1[i] as int] == palette1[data2[i] as int]);
    }
}

/// Looking each pixel's index up in the palette gives back the colour word
/// of each pixel, exactly.
pub proof fn lemma_expanded_is_colours(pixels: Seq<Rgba>, palette: Seq<u16>, data: Seq<u16>)
    requires
        indexes(palette, data, pixels),
    ensures
        expanded(palette, data) == colours_of(pixels),
{
}

/// The place of `colour` in `palette`, if it is there.
fn position(palette: &Vec<u16>, colour: u16) -> (found: Option<usize>)
    ensures
        match found {
            Some(j) => j < palette@.len() && palette@[j as int] == colour,
            None => !palette@.contains(colour),
        },
{
    let mut j: usize = 0;
    while j < palette.len()
        invariant
            j <= palette@.len(),
            forall|k: int| 0 <= k < j ==> palette@[k] != colour,
        decreases palette@.len() - j,
    {
        if palette[j] == colour {
            return Some(j);
        }
        j += 1;
    }
    None
}

/// Builds the palette and the index buffer of a raster scan. Each pixel is
/// converted to its colour word; a colour not seen before is appended to the
/// palette; the pixel's index is the place of its colour in the palette.
/// The palette may grow to any length that the colours allow.
pub fn build_palette(pixels: &Vec<Rgba>) -> (out: (Vec<u16>, Vec<u16>))
    ensures
        indexes(out.0@, out.1@, pixels@),
        out.0@.no_duplicates(),
        out.0@.len() <= 0x8000,
        forall|k: int| 0 <= k < out.0@.len() ==> out.0@[k] < 0x8000,
{
    let mut palette: Vec<u16> = Vec::new();
    let mut data: Vec<u16> = Vec::new();
    let ghost colours = colours_of(pixels@);
    let mut i: usize = 0;
    while i < pixels.len()
        invariant
            i <= pixels@.len(),
            colours == colours_of(pixels@),
            palette@ == palette_of(colours.take(i as int)),
            palette@.no_duplicates(),
            palette@.len() <= 0x8000,
            forall|k: int| 0 <= k < palette@.len() ==> palette@[k] < 0x8000,
            data@.len() == i,
            forall|k: int|
                0 <= k < i ==> (#[trigger] data@[k]) < palette@.len() && palette@[data@[k] as int]
                    == colour_of(pixels@[k]),
        decreases pixels@.len() - i,
    {
        let converted: u16 = convert_colour(&pixels[i]);
        let found = position(&palette, converted);
        proof {
            let scanned = colours.take(i as int + 1);
            assert(scanned.drop_last() =~= colours.take(i as int));
        }
        let index: usize = match found {
            Some(j) => j,
            None => {
                palette.push(converted);
                palette.len() - 1
            },
        };
        proof {
            lemma_unique_colours_bounded(palette@);
        }
        data.push(index as u16);
        i += 1;
    }
    proof {
        assert(colours.take(i as int) =~= colours);
    }
    (palette, data)
}

/// A converted image: its size, its palette and one palette index per
/// pixel in raster order.
#[derive(Debug, Clone)]
pub struct ImageInfo {
    pub width: u32,
    pub height: u32,
    pub colours: Vec<u16>,
    pub data: Vec<u16>,
}

impl ImageInfo {
    /// The image holds one index per pixel, each index names a palette
    /// entry, and no colour stands in the palette twice.
    pub open spec fn wf(&self) -> bool {
        &&& self.data@.len() == self.width * self.height
        &&& self.colours@.no_duplicates()
        &&& forall|i: int|
            0 <= i < self.data@.len() ==> (#[trigger] self.data@[i]) < self.colours@.len()
    }

    /// Tests whether the image is well formed.
    pub fn is_well_formed(&self) -> (ok: bool)
        ensures
            ok == self.wf(),
    {
        assert(self.width * self.height <= u64::MAX) by (nonlinear_arith)
            requires
                self.width <= u32::MAX,
                self.height <= u32::MAX,
        ;
        if self.data.len() as u64 != self.width as u64 * self.height as u64 {
            return false;
        }
        let mut i: usize = 0;
        while i < self.data.len()
            invariant
                i <= self.data@.len(),
                forall|k: int| 0 <= k < i ==> (#[trigger] self.data@[k]) < self.colours@.len(),
            decreases self.data@.len() - i,
        {
            if self.data[i] as usize >= self.colours.len() {
                return false;
            }
            i += 1;
        }
        let mut a: usize = 0;
        while a < self.colours.len()
            invariant
                a <= self.colours@.len(),
                forall|x: int, y: int|
                    0 <= x < a && 0 <= y < x ==> self.colours@[x] != self.colours@[y],
            decreases self.colours@.len() - a,
        {
            let mut b: usize = 0;
            while b < a
                invariant
                    b <= a < self.colours@.len(),
                    forall|y: int| 0 <= y < b ==> self.colours@[a as int] != self.colours@[y],
                decreases a - b,
            {
                if self.colours[a] == self.colours[b] {
                    return false;
                }
                b += 1;
            }
            a += 1;
        }
        true
    }

    /// The colour word of each pixel, looked up through its index: the
    /// direct-colour form of the image, one value per pixel.
    pub fn direct_colours(&self) -> (pixels: Vec<u16>)
        requires
            self.wf(),
        ensures
            pixels@ == expanded(self.colours@, self.data@),
    {
        let mut pixels: Vec<u16> = Vec::with_capacity(self.data.len());
        let mut i: usize = 0;
        while i < self.data.len()
            invariant
                self.wf(),
                i <= self.data@.len(),
                pixels@.len() == i,
                forall|k: int| 0 <= k < i ==> pixels@[k] == self.colours@[self.data@[k] as int],
            decreases self.data@.len() - i,
        {
            pixels.push(self.colours[self.data[i] as usize]);
            i += 1;
        }
        pixels
    }
}

impl Default for ImageInfo {
    /// The image of no pixels.
    fn default() -> (info: Self)
        ensures
            info.width == 0,
            info.height == 0,
            info.colours@.len() == 0,
            info.data@.len() == 0,
            info.wf(),
    {
        ImageInfo { width: 0, height: 0, colours: Vec::new(), data: Vec::new() }
    }
}

/// Converts a decoded image of `width` by `height` pixels, given in raster
/// order, to its palette and index buffer.
pub fn read_image(width: u32, height: u32, pixels: &Vec<Rgba>) -> (info: ImageInfo)
    requires
        pixels@.len() == width * height,
    ensures
        info.wf(),
        info.width == width,
        info.height == height,
        indexes(info.colours@, info.data@, pixels@),
        forall|k: int| 0 <= k < info.colours@.len() ==> info.colours@[k] < 0x8000,
{
    let (colours, data) = build_palette(pixels);
    ImageInfo { width, height, colours, data }
}

} // verus!
