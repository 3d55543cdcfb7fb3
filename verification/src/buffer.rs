//! Write buffers: which sizes and alignments make a buffer, how a buffer is
//! filled before each write, and which kind of I/O a run ends up using.

use rand::Rng;
use vstd::prelude::*;

verus! {

/// Why no buffer was made.
#[derive(Clone, Copy, Debug, PartialEq, Eq, Structural)]
pub enum AllocationError {
    /// The alignment is zero or not a power of two.
    Alignment,
    /// The size, rounded up to the alignment, exceeds the largest size that
    /// an allocation can have.
    Size,
}

/// How a buffer is filled before it is written.
#[derive(Clone, Copy, Debug, PartialEq, Eq, Structural)]
pub enum FillStrategy {
    /// All zeros: cheap, but storage that compresses or deduplicates may
    /// flatter the figures.
    Zero,
    /// Fresh random bytes: realistic, at the cost of processor time.
    Random,
}

/// Which I/O path a measurement used.
#[derive(Clone, Copy, Debug, PartialEq, Eq, Structural)]
pub enum IoMode {
    /// Writes bypass the page cache.
    Direct,
    /// Cached I/O, as asked for.
    Cached,
    /// Cached I/O because the platform offers no direct I/O, although it
    /// was asked for.
    CachedFallback,
}

pub open spec fn is_power_of_two(n: nat) -> bool
    decreases n,
{
    n == 1 || (n > 1 && n % 2 == 0 && is_power_of_two(n / 2))
}

/// `size` rounded up to the nearest multiple of `alignment`.
pub open spec fn rounded_up(size: nat, alignment: nat) -> nat
    recommends
        alignment > 0,
{
    ((size + alignment - 1) / alignment as int * alignment) as nat
}

/// The sizes and alignments of which a buffer can be made.
pub open spec fn spec_check_layout(size: nat, alignment: nat) -> Result<(), AllocationError> {
    if !is_power_of_two(alignment) {
        Err(AllocationError::Alignment)
    } else if rounded_up(size, alignment) > isize::MAX {
        Err(AllocationError::Size)
    } else {
        Ok(())
    }
}

pub open spec fn all_zero(s: Seq<u8>) -> bool {
    forall|i: int| 0 <= i < s.len() ==> #[trigger] s[i] == 0
}

/// The I/O path for a request: direct where it is asked for and offered,
/// the labelled fallback where it is asked for and not offered.
pub fn resolve_io_mode(direct_requested: bool, direct_supported: bool) -> (m: IoMode)
    ensures
        m == if !direct_requested {
            IoMode::Cached
        } else if direct_supported {
            IoMode::Direct
        } else {
            IoMode::CachedFallback
        },
{
    if !direct_requested {
        IoMode::Cached
    } else if direct_supported {
        IoMode::Direct
    } else {
        IoMode::CachedFallback
    }
}

/// The label under which a measurement with this I/O path is reported.
pub fn io_mode_label(mode: IoMode) -> (label: &'static str)
    ensures
        label@ == match mode {
            IoMode::Direct => "direct"@,
            IoMode::Cached => "cached"@,
            IoMode::CachedFallback => "cached (direct I/O unsupported)"@,
        },
{
    match mode {
        IoMode::Direct => "direct",
        IoMode::Cached => "cached",
        IoMode::CachedFallback => "cached (direct I/O unsupported)",
    }
}

/// Power-of-two test.
pub fn check_power_of_two(n: usize) -> (r: bool)
    ensures
        r == is_power_of_two(n as nat),
{
    if n == 0 {
        return false;
    }
    let mut m: usize = n;
    while m % 2 == 0
        invariant
            m > 0,
            is_power_of_two(m as nat) == is_power_of_two(n as nat),
        decreases m,
    {
        m = m / 2;
    }
    m == 1
}

/// Tests a size and an alignment.
pub fn check_layout(size: usize, alignment: usize) -> (r: Result<(), AllocationError>)
    ensures
        r == spec_check_layout(size as nat, alignment as nat),
        r is Ok ==> size <= isize::MAX,
{
    if !check_power_of_two(alignment) {
        return Err(AllocationError::Alignment);
    }
    let limit: usize = isize::MAX as usize;
    let rest: usize = size % alignment;
    let pad: usize = if rest == 0 {
        0
    } else {
        alignment - rest
    };
    proof {
        let s = size as int;
        let a = alignment as int;
        let q = s / a;
        vstd::arithmetic::div_mod::lemma_fundamental_div_mod(s, a);
        assert(s == a * q + rest);
        if rest == 0 {
            assert(s + a - 1 == q * a + (a - 1)) by (nonlinear_arith)
                requires
                    s == a * q,
            ;
            vstd::arithmetic::div_mod::lemma_fundamental_div_mod_converse(s + a - 1, a, q, a - 1);
            assert(q * a == s) by (nonlinear_arith)
                requires
                    s == a * q,
            ;
        } else {
            assert(s + a - 1 == (q + 1) * a + (rest - 1)) by (nonlinear_arith)
                requires
                    s == a * q + rest,
            ;
            vstd::arithmetic::div_mod::lemma_fundamental_div_mod_converse(
                s + a - 1,
                a,
                q + 1,
                rest - 1,
            );
            assert((q + 1) * a == s + (a - rest)) by (nonlinear_arith)
                requires
                    s == a * q + rest,
            ;
        }
        assert(rounded_up(size as nat, alignment as nat) == size + pad);
    }
    if size > limit || pad > limit - size {
        Err(AllocationError::Size)
    } else {
        Ok(())
    }
}

/// Fills `buf` with bytes from the thread's random generator, by
/// `rand::Rng::fill` on `rand::thread_rng()`. The length stays; nothing is
/// claimed of the bytes.
#[verifier::external_body]
fn fill_random(buf: &mut Vec<u8>)
    ensures
        final(buf)@.len() == old(buf)@.len(),
{
    rand::thread_rng().fill(&mut buf[..]);
}

/// Overwrites every byte of `v` with zero.
pub fn zero_fill(v: &mut Vec<u8>)
    ensures
        final(v)@.len() == old(v)@.len(),
        all_zero(final(v)@),
{
    let mut i: usize = 0;
    while i < v.len()
        invariant
            i <= v@.len(),
            v@.len() == old(v)@.len(),
            all_zero(v@.take(i as int)),
        decreases v@.len() - i,
    {
        let ghost before = v@;
        v[i] = 0;
        assert forall|j: int| 0 <= j < i + 1 implies #[trigger] v@.take(i + 1)[j] == 0 by {
            if j < i {
                assert(before.take(i as int)[j] == 0);
            }
        }
        i = i + 1;
    }
    assert(v@.take(v@.len() as int) =~= v@);
}

/// A buffer of `size` zero bytes.
pub fn zeroed(size: usize) -> (v: Vec<u8>)
    requires
        size <= isize::MAX,
    ensures
        v@.len() == size,
        all_zero(v@),
{
    let mut v: Vec<u8> = Vec::with_capacity(size);
    let mut i: usize = 0;
    while i < size
        invariant
            i <= size,
            v@.len() == i,
            all_zero(v@),
        decreases size - i,
    {
        v.push(0);
        i = i + 1;
    }
    v
}

/// A fresh buffer of `size` random bytes.
pub fn create_random_buffer(size: usize) -> (buffer: Vec<u8>)
    requires
        size <= isize::MAX,
    ensures
        buffer@.len() == size,
{
    let mut buffer = zeroed(size);
    fill_random(&mut buffer);
    buffer
}

/// A write buffer together with the alignment it was asked for.
pub struct Buffer {
    data: Vec<u8>,
    alignment: usize,
}

impl View for Buffer {
    type V = Seq<u8>;

    closed spec fn view(&self) -> Seq<u8> {
        self.data@
    }
}

impl Buffer {
    pub closed spec fn alignment(&self) -> nat {
        self.alignment as nat
    }

    /// A zeroed buffer of `size` bytes for the given alignment.
    ///
    /// Fails exactly on the sizes and alignments that `spec_check_layout`
    /// refuses, with the error it names.
    pub fn allocate(size: usize, alignment: usize) -> (r: Result<Buffer, AllocationError>)
        ensures
            match r {
                Ok(b) => {
                    &&& spec_check_layout(size as nat, alignment as nat) is Ok
                    &&& b@.len() == size
                    &&& all_zero(b@)
                    &&& b.alignment() == alignment
                },
                Err(e) => spec_check_layout(size as nat, alignment as nat) == Err::<
                    (),
                    AllocationError,
                >(e),
            },
    {
        match check_layout(size, alignment) {
            Ok(()) => Ok(Buffer { data: zeroed(size), alignment }),
            Err(e) => Err(e),
        }
    }

    pub fn len(&self) -> (n: usize)
        ensures
            n == self@.len(),
    {
        self.data.len()
    }

    pub fn required_alignment(&self) -> (a: usize)
        ensures
            a == self.alignment(),
    {
        self.alignment
    }

    pub fn as_bytes(&self) -> (bytes: &Vec<u8>)
        ensures
            bytes@ == self@,
    {
        &self.data
    }

    /// Refills the buffer for the next write: with zeros, or with random
    /// bytes, of which only their number is known.
    pub fn fill(&mut self, strategy: FillStrategy)
        ensures
            final(self)@.len() == old(self)@.len(),
            final(self).alignment() == old(self).alignment(),
            strategy == FillStrategy::Zero ==> all_zero(final(self)@),
    {
        match strategy {
            FillStrategy::Zero => {
                zero_fill(&mut self.data);
            },
            FillStrategy::Random => {
                fill_random(&mut self.data);
            },
        }
    }
}

} // verus!
