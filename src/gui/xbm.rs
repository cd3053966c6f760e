//! Monochrome XBM bitmaps.
//!
//! Pixels are stored one bit each, least significant bit first, row after row
//! with no padding between rows. A pixel is addressed by a pair `(x, y)` where
//! `x` is its row (below the height) and `y` its column (below the width); its
//! bit index is `x * width + y`.
use vstd::prelude::*;

verus! {

/// Number of pixels of a `width` by `height` image.
pub open spec fn spec_dimension_bits(width: u8, height: u8) -> int {
    width as int * height as int
}

/// Number of bytes that hold `bits` bits.
pub open spec fn spec_bits_to_bytes(bits: int) -> int {
    (bits + 7) / 8
}

/// Number of bytes of a `width` by `height` image.
pub open spec fn spec_dimension_bytes(width: u8, height: u8) -> int {
    spec_bits_to_bytes(spec_dimension_bits(width, height))
}

/// Bit `i` of a byte sequence, counting from the least significant bit of
/// the first byte.
pub open spec fn bit_at(bytes: Seq<u8>, i: int) -> bool {
    (bytes[i / 8] >> ((i % 8) as u8)) & 1u8 != 0u8
}

/// Bit index of pixel `(x, y)` in a `width` by `height` image, if the pixel
/// lies inside it.
pub open spec fn pixel_index(width: u8, height: u8, c: (u8, u8)) -> Option<int> {
    if c.0 < height && c.1 < width {
        Some(c.0 as int * width as int + c.1 as int)
    } else {
        None
    }
}

/// Storage of an image's bytes.
pub trait ByteStorage {
    /// The stored bytes.
    spec fn bytes(&self) -> Seq<u8>;

    fn byte_len(&self) -> (r: usize)
        ensures
            r == self.bytes().len(),
    ;

    fn byte(&self, i: usize) -> (r: u8)
        requires
            i < self.bytes().len(),
        ensures
            r == self.bytes()[i as int],
    ;

    fn as_bytes(&self) -> (r: &[u8])
        ensures
            r@ == self.bytes(),
    ;
}

/// Storage whose bytes can be overwritten in place.
pub trait ByteStorageMut: ByteStorage {
    fn set_byte(&mut self, i: usize, v: u8)
        requires
            i < old(self).bytes().len(),
        ensures
            final(self).bytes() == old(self).bytes().update(i as int, v),
    ;

    fn as_bytes_mut(&mut self) -> (r: &mut [u8])
        ensures
            r@ == old(self).bytes(),
            final(self).bytes() == final(r)@,
    ;
}

impl ByteStorage for Vec<u8> {
    open spec fn bytes(&self) -> Seq<u8> {
        self@
    }

    fn byte_len(&self) -> (r: usize) {
        self.len()
    }

    fn byte(&self, i: usize) -> (r: u8) {
        self[i]
    }

    fn as_bytes(&self) -> (r: &[u8]) {
        self.as_slice()
    }
}

impl ByteStorageMut for Vec<u8> {
    fn set_byte(&mut self, i: usize, v: u8) {
        self.set(i, v);
    }

    fn as_bytes_mut(&mut self) -> (r: &mut [u8]) {
        self.as_mut_slice()
    }
}

impl<'a> ByteStorage for &'a [u8] {
    open spec fn bytes(&self) -> Seq<u8> {
        (**self)@
    }

    fn byte_len(&self) -> (r: usize) {
        self.len()
    }

    fn byte(&self, i: usize) -> (r: u8) {
        self[i]
    }

    fn as_bytes(&self) -> (r: &[u8]) {
        *self
    }
}

impl<'a> ByteStorage for &'a mut [u8] {
    open spec fn bytes(&self) -> Seq<u8> {
        (**self)@
    }

    fn byte_len(&self) -> (r: usize) {
        self.len()
    }

    fn byte(&self, i: usize) -> (r: u8) {
        self[i]
    }

    fn as_bytes(&self) -> (r: &[u8]) {
        &**self
    }
}

impl<'a> ByteStorageMut for &'a mut [u8] {
    fn set_byte(&mut self, i: usize, v: u8) {
        self[i] = v;
    }

    fn as_bytes_mut(&mut self) -> (r: &mut [u8]) {
        &mut **self
    }
}

/// A fixed-size byte array that an image can own.
#[derive(Debug, PartialEq, Eq)]
pub struct ByteArray<const N: usize>(pub [u8; N]);

impl<const N: usize> ByteStorage for ByteArray<N> {
    open spec fn bytes(&self) -> Seq<u8> {
        self.0@
    }

    fn byte_len(&self) -> (r: usize) {
        N
    }

    fn byte(&self, i: usize) -> (r: u8) {
        self.0[i]
    }

    fn as_bytes(&self) -> (r: &[u8]) {
        self.0.as_slice()
    }
}

impl<const N: usize> ByteStorageMut for ByteArray<N> {
    fn set_byte(&mut self, i: usize, v: u8) {
        self.0[i] = v;
    }

    fn as_bytes_mut(&mut self) -> (r: &mut [u8]) {
        &mut self.0
    }
}

/// A `width` by `height` monochrome image over the byte storage `D`.
#[derive(Clone, Debug, PartialEq, Eq, Hash)]
pub struct XbmImage<D> {
    data: D,
    width: u8,
    height: u8,
}

proof fn lemma_index_in_image(x: u8, y: u8, width: u8, height: u8)
    requires
        x < height,
        y < width,
    ensures
        x as int * width as int + (y as int) < spec_dimension_bits(width, height),
        spec_dimension_bits(width, height) <= 65025,
{
    assert(x as int * width as int + (y as int) < height as int * width as int) by (nonlinear_arith)
        requires
            x < height,
            y < width,
    ;
    assert(width as int * height as int <= 255 * 255) by (nonlinear_arith)
        requires
            width <= 255,
            height <= 255,
    ;
}

impl<D> XbmImage<D> {
    pub closed spec fn spec_width(&self) -> u8 {
        self.width
    }

    pub closed spec fn spec_height(&self) -> u8 {
        self.height
    }

    pub fn width(&self) -> (r: u8)
        ensures
            r == self.spec_width(),
    {
        self.width
    }

    pub fn height(&self) -> (r: u8)
        ensures
            r == self.spec_height(),
    {
        self.height
    }

    pub fn dimensions(&self) -> (r: (u8, u8))
        ensures
            r == (self.spec_width(), self.spec_height()),
    {
        (self.width, self.height)
    }

    fn dimension_bits(width: u8, height: u8) -> (r: u16)
        ensures
            r == spec_dimension_bits(width, height),
    {
        proof {
            assert(width as int * height as int <= 255 * 255) by (nonlinear_arith)
                requires
                    width <= 255,
                    height <= 255,
            ;
        }
        width as u16 * height as u16
    }

    fn bits_to_min_required_bytes(bits: u16) -> (r: u16)
        ensures
            r == spec_bits_to_bytes(bits as int),
    {
        bits / 8 + if bits % 8 != 0 {
            1
        } else {
            0
        }
    }

    /// Number of bytes a `width` by `height` image needs.
    pub fn dimension_bytes(width: u8, height: u8) -> (r: u16)
        ensures
            r == spec_dimension_bytes(width, height),
    {
        Self::bits_to_min_required_bytes(Self::dimension_bits(width, height))
    }

    fn offset(&self, x: u8, y: u8) -> (r: Option<u16>)
        ensures
            r matches Some(i) ==> pixel_index(self.width, self.height, (x, y)) == Some(i as int),
            r is None ==> pixel_index(self.width, self.height, (x, y)) is None,
    {
        if x >= self.height || y >= self.width {
            None
        } else {
            proof {
                lemma_index_in_image(x, y, self.width, self.height);
            }
            Some(x as u16 * self.width as u16 + y as u16)
        }
    }

    fn offsets(&self, x: u8, y: u8) -> (r: Option<(u16, u8)>)
        ensures
            r matches Some(p) ==> {
                &&& pixel_index(self.width, self.height, (x, y)) matches Some(i)
                &&& p.0 as int == i / 8
                &&& p.1 as int == i % 8
                &&& i < spec_dimension_bits(self.width, self.height)
            },
            r is None ==> pixel_index(self.width, self.height, (x, y)) is None,
    {
        if let Some(offset) = self.offset(x, y) {
            proof {
                lemma_index_in_image(x, y, self.width, self.height);
            }
            Some((offset / 8, (offset % 8) as u8))
        } else {
            None
        }
    }
}

proof fn lemma_bit_or(b: u8, s: u8, t: u8)
    requires
        s < 8,
        t < 8,
    ensures
        ((b | (1u8 << s)) >> t) & 1u8 != 0u8 <==> (s == t || (b >> t) & 1u8 != 0u8),
{
    assert(((b | (1u8 << s)) >> t) & 1u8 != 0u8 <==> (s == t || (b >> t) & 1u8 != 0u8))
        by (bit_vector)
        requires
            s < 8,
            t < 8,
    ;
}

proof fn lemma_bit_clear(b: u8, s: u8, t: u8)
    requires
        s < 8,
        t < 8,
    ensures
        ((b & !(1u8 << s)) >> t) & 1u8 != 0u8 <==> (s != t && (b >> t) & 1u8 != 0u8),
{
    assert(((b & !(1u8 << s)) >> t) & 1u8 != 0u8 <==> (s != t && (b >> t) & 1u8 != 0u8))
        by (bit_vector)
        requires
            s < 8,
            t < 8,
    ;
}

proof fn lemma_bit_xor(b: u8, s: u8, t: u8)
    requires
        s < 8,
        t < 8,
    ensures
        ((b ^ (1u8 << s)) >> t) & 1u8 != 0u8 <==> (if s == t {
            (b >> t) & 1u8 == 0u8
        } else {
            (b >> t) & 1u8 != 0u8
        }),
{
    assert(((b ^ (1u8 << s)) >> t) & 1u8 != 0u8 <==> (if s == t {
        (b >> t) & 1u8 == 0u8
    } else {
        (b >> t) & 1u8 != 0u8
    })) by (bit_vector)
        requires
            s < 8,
            t < 8,
    ;
}

impl<D: ByteStorage> XbmImage<D> {
    /// The stored bytes.
    pub closed spec fn bytes(&self) -> Seq<u8> {
        self.data.bytes()
    }

    /// The storage holds exactly the bytes that the dimensions need.
    pub open spec fn wf(&self) -> bool {
        self.bytes().len() == spec_dimension_bytes(self.spec_width(), self.spec_height())
    }

    /// The pixels, row after row; `true` is a set bit.
    pub open spec fn pixels(&self) -> Seq<bool> {
        Seq::new(
            spec_dimension_bits(self.spec_width(), self.spec_height()) as nat,
            |i: int| bit_at(self.bytes(), i),
        )
    }

    /// Bit index of pixel `c`, if it lies inside the image.
    pub open spec fn index_of(&self, c: (u8, u8)) -> Option<int> {
        pixel_index(self.spec_width(), self.spec_height(), c)
    }

    /// Value of pixel `c`, if it lies inside the image.
    pub open spec fn pixel(&self, c: (u8, u8)) -> Option<bool> {
        match self.index_of(c) {
            Some(i) => Some(self.pixels()[i]),
            None => None,
        }
    }

    pub fn data(&self) -> (r: &[u8])
        ensures
            r@ == self.bytes(),
    {
        self.data.as_bytes()
    }

    /// Wraps `data` as a `width` by `height` image. The storage must hold
    /// exactly `ceil(width * height / 8)` bytes.
    pub fn new_from(width: u8, height: u8, data: D) -> (r: Self)
        requires
            data.bytes().len() == spec_dimension_bytes(width, height),
        ensures
            r.wf(),
            r.spec_width() == width,
            r.spec_height() == height,
            r.bytes() == data.bytes(),
    {
        Self { data, width, height }
    }

    /// Value of the pixel at `(x, y)`; `None` outside the image.
    pub fn get(&self, c: (u8, u8)) -> (r: Option<bool>)
        requires
            self.wf(),
        ensures
            r == self.pixel(c),
    {
        let (x, y) = c;
        if let Some((byte, shift)) = self.offsets(x, y) {
            Some((self.data.byte(byte as usize) >> shift) & 1 != 0)
        } else {
            None
        }
    }
}

impl<D: ByteStorageMut> XbmImage<D> {
    /// The stored bytes, for writing. The image keeps its dimensions, and
    /// stays well formed when the slice keeps its length.
    pub fn data_mut(&mut self) -> (r: &mut [u8])
        ensures
            r@ == old(self).bytes(),
            final(self).bytes() == final(r)@,
            final(self).spec_width() == old(self).spec_width(),
            final(self).spec_height() == old(self).spec_height(),
            old(self).wf() && final(r)@.len() == r@.len() ==> final(self).wf(),
    {
        self.data.as_bytes_mut()
    }

    /// Sets the pixel at `(x, y)` to `value`; `None`, and nothing changed,
    /// outside the image.
    pub fn set(&mut self, coordinates: (u8, u8), value: bool) -> (r: Option<()>)
        requires
            old(self).wf(),
        ensures
            final(self).wf(),
            final(self).spec_width() == old(self).spec_width(),
            final(self).spec_height() == old(self).spec_height(),
            r is Some <==> old(self).index_of(coordinates) is Some,
            old(self).index_of(coordinates) matches Some(i) ==> final(self).pixels()
                == old(self).pixels().update(i, value),
            old(self).index_of(coordinates) matches Some(i) ==> final(self).bytes() == old(
                self,
            ).bytes().update(
                i / 8,
                if value {
                    old(self).bytes()[i / 8] | (1u8 << ((i % 8) as u8))
                } else {
                    old(self).bytes()[i / 8] & !(1u8 << ((i % 8) as u8))
                },
            ),
            r is None ==> final(self).bytes() == old(self).bytes(),
    {
        if value {
            self.set_1(coordinates)
        } else {
            self.set_0(coordinates)
        }
    }

    /// Sets the pixel at `(x, y)`; `None`, and nothing changed, outside the
    /// image.
    pub fn set_1(&mut self, c: (u8, u8)) -> (r: Option<()>)
        requires
            old(self).wf(),
        ensures
            final(self).wf(),
            final(self).spec_width() == old(self).spec_width(),
            final(self).spec_height() == old(self).spec_height(),
            r is Some <==> old(self).index_of(c) is Some,
            old(self).index_of(c) matches Some(i) ==> final(self).pixels() == old(
                self,
            ).pixels().update(i, true),
            old(self).index_of(c) matches Some(i) ==> final(self).bytes() == old(
                self,
            ).bytes().update(i / 8, old(self).bytes()[i / 8] | (1u8 << ((i % 8) as u8))),
            r is None ==> final(self).bytes() == old(self).bytes(),
    {
        let (x, y) = c;
        let (byte, shift) = self.offsets(x, y)?;
        let b = self.data.byte(byte as usize);
        self.data.set_byte(byte as usize, b | (1u8 << shift));
        proof {
            let i = byte as int * 8 + shift as int;
            assert forall|j: int| 0 <= j < final(self).pixels().len() implies final(self).pixels()[j]
                == old(self).pixels().update(i, true)[j] by {
                if j / 8 == byte as int {
                    lemma_bit_or(b, shift, (j % 8) as u8);
                }
            }
            assert(final(self).pixels() =~= old(self).pixels().update(i, true));
        }
        Some(())
    }

    /// Clears the pixel at `(x, y)`; `None`, and nothing changed, outside
    /// the image.
    pub fn set_0(&mut self, c: (u8, u8)) -> (r: Option<()>)
        requires
            old(self).wf(),
        ensures
            final(self).wf(),
            final(self).spec_width() == old(self).spec_width(),
            final(self).spec_height() == old(self).spec_height(),
            r is Some <==> old(self).index_of(c) is Some,
            old(self).index_of(c) matches Some(i) ==> final(self).pixels() == old(
                self,
            ).pixels().update(i, false),
            old(self).index_of(c) matches Some(i) ==> final(self).bytes() == old(
                self,
            ).bytes().update(i / 8, old(self).bytes()[i / 8] & !(1u8 << ((i % 8) as u8))),
            r is None ==> final(self).bytes() == old(self).bytes(),
    {
        let (x, y) = c;
        let (byte, shift) = self.offsets(x, y)?;
        let b = self.data.byte(byte as usize);
        self.data.set_byte(byte as usize, b & !(1u8 << shift));
        proof {
            let i = byte as int * 8 + shift as int;
            assert forall|j: int| 0 <= j < final(self).pixels().len() implies final(self).pixels()[j]
                == old(self).pixels().update(i, false)[j] by {
                if j / 8 == byte as int {
                    lemma_bit_clear(b, shift, (j % 8) as u8);
                }
            }
            assert(final(self).pixels() =~= old(self).pixels().update(i, false));
        }
        Some(())
    }

    /// Inverts the pixel at `(x, y)`; `None`, and nothing changed, outside
    /// the image.
    pub fn xor(&mut self, c: (u8, u8)) -> (r: Option<()>)
        requires
            old(self).wf(),
        ensures
            final(self).wf(),
            final(self).spec_width() == old(self).spec_width(),
            final(self).spec_height() == old(self).spec_height(),
            r is Some <==> old(self).index_of(c) is Some,
            old(self).index_of(c) matches Some(i) ==> final(self).pixels() == old(
                self,
            ).pixels().update(i, !old(self).pixels()[i]),
            old(self).index_of(c) matches Some(i) ==> final(self).bytes() == old(
                self,
            ).bytes().update(i / 8, old(self).bytes()[i / 8] ^ (1u8 << ((i % 8) as u8))),
            r is None ==> final(self).bytes() == old(self).bytes(),
    {
        let (x, y) = c;
        let (byte, shift) = self.offsets(x, y)?;
        let b = self.data.byte(byte as usize);
        self.data.set_byte(byte as usize, b ^ (1u8 << shift));
        proof {
            let i = byte as int * 8 + shift as int;
            let flipped = !old(self).pixels()[i];
            assert forall|j: int| 0 <= j < final(self).pixels().len() implies final(self).pixels()[j]
                == old(self).pixels().update(i, flipped)[j] by {
                if j / 8 == byte as int {
                    lemma_bit_xor(b, shift, (j % 8) as u8);
                    lemma_bit_xor(b, shift, shift);
                }
            }
            assert(final(self).pixels() =~= old(self).pixels().update(i, flipped));
        }
        Some(())
    }
}

impl XbmImage<Vec<u8>> {
    /// A blank `width` by `height` image.
    pub fn new(width: u8, height: u8) -> (r: Self)
        ensures
            r.wf(),
            r.spec_width() == width,
            r.spec_height() == height,
            forall|i: int| 0 <= i < r.bytes().len() ==> r.bytes()[i] == 0,
            forall|i: int| 0 <= i < r.pixels().len() ==> !r.pixels()[i],
    {
        let bytes = Self::dimension_bytes(width, height) as usize;
        let mut data: Vec<u8> = Vec::new();
        while data.len() < bytes
            invariant
                data.len() <= bytes,
                forall|i: int| 0 <= i < data.len() ==> data@[i] == 0,
            decreases bytes - data.len(),
        {
            data.push(0);
        }
        let r = Self { data, width, height };
        proof {
            assert forall|i: int| 0 <= i < r.pixels().len() implies !r.pixels()[i] by {
                assert(forall|t: u8| (0u8 >> t) & 1u8 == 0u8) by (bit_vector);
                assert(r.bytes()[i / 8] == 0);
            }
        }
        r
    }
}

impl XbmImage<&'static [u8]> {
    /// Wraps a static byte slice as a `width` by `height` image. The slice
    /// must hold exactly `ceil(width * height / 8)` bytes.
    pub fn new_from_static(width: u8, height: u8, data: &'static [u8]) -> (r: Self)
        requires
            data@.len() == spec_dimension_bytes(width, height),
        ensures
            r.wf(),
            r.spec_width() == width,
            r.spec_height() == height,
            r.bytes() == data@,
    {
        Self { data, width, height }
    }
}

impl<const SIZE: usize> XbmImage<ByteArray<SIZE>> {
    /// Wraps a byte array as a `WIDTH` by `HEIGHT` image. The array must hold
    /// exactly `ceil(WIDTH * HEIGHT / 8)` bytes.
    pub fn new_from_array<const WIDTH: u8, const HEIGHT: u8>(data: [u8; SIZE]) -> (r: Self)
        requires
            SIZE == spec_dimension_bytes(WIDTH, HEIGHT),
        ensures
            r.wf(),
            r.spec_width() == WIDTH,
            r.spec_height() == HEIGHT,
            r.bytes() == data@,
    {
        Self { data: ByteArray(data), width: WIDTH, height: HEIGHT }
    }
}

} // verus!
