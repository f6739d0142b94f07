//! Sample store: zero-copy access to one raw audio file as a flat,
//! immutable array of 32-bit signed samples.

use vstd::prelude::*;

verus! {

/// Number of bytes holding one stored sample.
pub const BYTES_PER_SAMPLE: usize = 4;

#[verifier::external_type_specification]
#[verifier::external_body]
pub struct ExMmap(memmap2::Mmap);

/// The bytes of a read-only memory mapping.  A mapping is immutable for its
/// whole lifetime, so its contents are a function of the mapping value.
pub uninterp spec fn mmap_bytes(m: memmap2::Mmap) -> Seq<u8>;

/// Whether the mapped bytes start on a four-byte boundary.  The address of a
/// mapping is fixed for its whole lifetime, so this too is a function of the
/// mapping value.  A mapping of a whole file is page-aligned; one made at a
/// file offset that is not a multiple of the page size may not be.
pub uninterp spec fn mmap_word_aligned(m: memmap2::Mmap) -> bool;

/// Relies on memmap2::Mmap::len, which returns the length in bytes of the
/// memory mapping.
#[verifier::external_body]
fn mmap_len(m: &memmap2::Mmap) -> (n: usize)
    ensures
        n == mmap_bytes(*m).len(),
{
    m.len()
}

/// The sample of index `i`, read little-endian from raw bytes.
pub open spec fn sample_at(b: Seq<u8>, i: int) -> i32 {
    let u = b[4 * i] + 0x100 * b[4 * i + 1] + 0x1_0000 * b[4 * i + 2] + 0x100_0000 * b[4 * i
        + 3];
    if u < 0x8000_0000 {
        u as i32
    } else {
        (u - 0x1_0000_0000) as i32
    }
}

/// All samples stored in a raw byte region, one per four bytes.
pub open spec fn sample_view(b: Seq<u8>) -> Seq<i32> {
    Seq::new((b.len() / 4) as nat, |i: int| sample_at(b, i))
}

/// Relies on memmap2's Deref and bytemuck::try_cast_slice, whose in-place
/// cast of the mapped bytes to 32-bit samples succeeds exactly when the
/// mapping starts on a four-byte boundary and its byte length is a whole
/// number of samples.
#[verifier::external_body]
fn mmap_castable(m: &memmap2::Mmap) -> (r: bool)
    ensures
        r == (mmap_word_aligned(*m) && mmap_bytes(*m).len() % 4 == 0),
{
    bytemuck::try_cast_slice::<u8, i32>(m.as_ref()).is_ok()
}

/// Relies on memmap2's Deref to the mapped bytes and on bytemuck::cast_slice,
/// which reinterprets those bytes in place as 32-bit signed samples and
/// cannot fail on a four-byte-aligned mapping whose length is a whole number
/// of samples; the targets this library runs on store samples little-endian.
#[verifier::external_body]
fn mmap_samples<'a>(m: &'a memmap2::Mmap) -> (r: &'a [i32])
    requires
        mmap_word_aligned(*m),
        mmap_bytes(*m).len() % 4 == 0,
    ensures
        r@ == sample_view(mmap_bytes(*m)),
{
    bytemuck::cast_slice(m.as_ref())
}

/// Why a raw audio file is rejected at open time.
#[derive(Clone, Copy, Debug, PartialEq, Eq, Structural)]
pub enum OpenError {
    /// The byte length is not a whole number of samples, or the mapping does
    /// not start on a sample boundary.
    Misaligned,
    /// The file holds no samples.
    Empty,
}

/// The number of samples stored in a raw file of `byte_len` bytes, or the
/// error with which such a file is rejected: a length that is not a multiple
/// of the sample width is misaligned, and a well-aligned length of zero
/// samples is empty.
pub fn sample_count_for(byte_len: usize) -> (r: Result<usize, OpenError>)
    ensures
        byte_len % 4 != 0 ==> r == Result::<usize, OpenError>::Err(OpenError::Misaligned),
        byte_len % 4 == 0 && byte_len == 0 ==> r == Result::<usize, OpenError>::Err(
            OpenError::Empty,
        ),
        byte_len % 4 == 0 && byte_len > 0 ==> r == Result::<usize, OpenError>::Ok(
            (byte_len / 4) as usize,
        ),
{
    if byte_len % BYTES_PER_SAMPLE != 0 {
        Err(OpenError::Misaligned)
    } else {
        let samples = byte_len / BYTES_PER_SAMPLE;
        if samples == 0 {
            Err(OpenError::Empty)
        } else {
            Ok(samples)
        }
    }
}

/// One opened raw audio file: a display name, a source path, and an
/// immutable, zero-copy view of its samples.
pub struct RawAudioFile {
    name: String,
    path: String,
    mmap: memmap2::Mmap,
    samples: usize,
}

impl View for RawAudioFile {
    type V = Seq<i32>;

    closed spec fn view(&self) -> Seq<i32> {
        sample_view(mmap_bytes(self.mmap))
    }
}

impl RawAudioFile {
    /// Every track holds a whole, positive number of samples, mapped from a
    /// four-byte boundary.
    #[verifier::type_invariant]
    closed spec fn wf(self) -> bool {
        &&& mmap_word_aligned(self.mmap)
        &&& mmap_bytes(self.mmap).len() % 4 == 0
        &&& self.samples == mmap_bytes(self.mmap).len() / 4
        &&& self.samples >= 1
    }

    /// The display name the track was opened under.
    pub closed spec fn spec_name(&self) -> Seq<char> {
        self.name@
    }

    /// The path the track was opened from.
    pub closed spec fn spec_path(&self) -> Seq<char> {
        self.path@
    }

    /// Validate a read-only mapping of a raw audio file and adopt it as a
    /// track: the mapping must hold a whole, positive number of samples and
    /// start on a four-byte boundary (a mapping of a whole file always
    /// does; one made at an odd file offset may not).
    pub fn new(name: String, path: String, mmap: memmap2::Mmap) -> (r: Result<Self, OpenError>)
        ensures
            r is Ok <==> (mmap_word_aligned(mmap) && mmap_bytes(mmap).len() % 4 == 0
                && mmap_bytes(mmap).len() >= 4),
            match r {
                Ok(t) => {
                    &&& t@ == sample_view(mmap_bytes(mmap))
                    &&& t@.len() == mmap_bytes(mmap).len() / 4
                    &&& t@.len() >= 1
                    &&& t.spec_name() == name@
                    &&& t.spec_path() == path@
                },
                Err(e) => e == (if mmap_bytes(mmap).len() % 4 != 0 {
                    OpenError::Misaligned
                } else if mmap_bytes(mmap).len() == 0 {
                    OpenError::Empty
                } else {
                    OpenError::Misaligned
                }),
            },
    {
        let len = mmap_len(&mmap);
        match sample_count_for(len) {
            Ok(samples) => {
                if mmap_castable(&mmap) {
                    Ok(RawAudioFile { name, path, mmap, samples })
                } else {
                    Err(OpenError::Misaligned)
                }
            },
            Err(e) => Err(e),
        }
    }

    /// The display name.
    pub fn name(&self) -> (r: &str)
        ensures
            r@ == self.spec_name(),
    {
        self.name.as_str()
    }

    /// The source path.
    pub fn path(&self) -> (r: &str)
        ensures
            r@ == self.spec_path(),
    {
        self.path.as_str()
    }

    /// Total number of samples in the file.
    pub fn len_samples(&self) -> (n: usize)
        ensures
            n == self@.len(),
            n >= 1,
    {
        proof {
            use_type_invariant(&*self);
        }
        self.samples
    }

    /// All samples, borrowed zero-copy from the mapping.
    pub fn samples(&self) -> (r: &[i32])
        ensures
            r@ == self@,
    {
        proof {
            use_type_invariant(&*self);
        }
        mmap_samples(&self.mmap)
    }
}

} // verus!
