//! Bounded byte strings and bounded byte vectors, the shapes in which messages
//! travel through shared memory: a string holds at most its capacity of bytes,
//! each ASCII and not NUL, and a vector at most its capacity of bytes. These rules
//! are the whole behaviour of the fixed-size strings and vectors that messages use
//! in shared memory, so they are written and proved here.
use vstd::prelude::*;

verus! {

/// A byte is accepted in a message string when it is ASCII and not NUL.
pub open spec fn is_message_byte(b: u8) -> bool {
    0 < b && b < 128
}

/// `true` when `bytes` fit in a message string of capacity `cap`.
pub open spec fn fits_message_string(bytes: Seq<u8>, cap: nat) -> bool {
    bytes.len() <= cap && forall|i: int| 0 <= i < bytes.len() ==> is_message_byte(#[trigger] bytes[i])
}

/// A copy of `bytes`.
fn copy_bytes(bytes: &[u8]) -> (r: Vec<u8>)
    ensures
        r@ == bytes@,
{
    let mut v: Vec<u8> = Vec::new();
    let mut i: usize = 0;
    while i < bytes.len()
        invariant
            i <= bytes.len(),
            v@ == bytes@.take(i as int),
        decreases bytes.len() - i,
    {
        v.push(bytes[i]);
        i = i + 1;
        assert(v@ =~= bytes@.take(i as int));
    }
    assert(bytes@.take(bytes@.len() as int) =~= bytes@);
    v
}

/// Why a byte string could not be built.
#[derive(Debug, Clone, Copy, PartialEq, Eq, Structural)]
pub enum ByteStringError {
    /// More bytes than the capacity.
    InsertWouldExceedCapacity,
    /// A byte that is NUL or not ASCII.
    InvalidCharacter,
}

/// An ASCII byte string of at most `N` bytes, none of them NUL.
#[derive(Debug, Clone)]
pub struct ByteString<const N: usize> {
    bytes: Vec<u8>,
}

impl<const N: usize> View for ByteString<N> {
    type V = Seq<u8>;

    closed spec fn view(&self) -> Seq<u8> {
        self.bytes@
    }
}

impl<const N: usize> ByteString<N> {
    /// The bytes fit the capacity and are all accepted bytes.
    pub open spec fn wf(&self) -> bool {
        fits_message_string(self@, N as nat)
    }

    /// The empty byte string.
    pub fn new() -> (r: Self)
        ensures
            r@ == Seq::<u8>::empty(),
            r.wf(),
    {
        ByteString { bytes: Vec::new() }
    }

    /// The byte string holding `bytes`; an error when they do not fit the capacity,
    /// checked first, or when one of them is NUL or not ASCII.
    pub fn from_bytes(bytes: &[u8]) -> (r: Result<Self, ByteStringError>)
        ensures
            r matches Ok(s) ==> s@ == bytes@ && s.wf(),
            r is Ok <==> fits_message_string(bytes@, N as nat),
            r == Err::<Self, _>(ByteStringError::InsertWouldExceedCapacity) <==> bytes@.len() > N,
            r == Err::<Self, _>(ByteStringError::InvalidCharacter) <==> (bytes@.len() <= N
                && !fits_message_string(bytes@, N as nat)),
    {
        if bytes.len() > N {
            return Err(ByteStringError::InsertWouldExceedCapacity);
        }
        let mut i: usize = 0;
        while i < bytes.len()
            invariant
                i <= bytes.len() <= N,
                forall|k: int| 0 <= k < i ==> is_message_byte(#[trigger] bytes@[k]),
            decreases bytes.len() - i,
        {
            let b = bytes[i];
            if b == 0 || b >= 128 {
                return Err(ByteStringError::InvalidCharacter);
            }
            i = i + 1;
        }
        Ok(ByteString { bytes: copy_bytes(bytes) })
    }

    /// The bytes of the string.
    pub fn as_bytes(&self) -> (r: &[u8])
        ensures
            r@ == self@,
    {
        self.bytes.as_slice()
    }

    /// A copy of the string.
    pub fn copy(&self) -> (r: Self)
        ensures
            r@ == self@,
    {
        ByteString { bytes: self.bytes.clone() }
    }
}

/// At most `N` bytes, in order.
#[derive(Debug, Clone)]
pub struct BoundedBytes<const N: usize> {
    items: Vec<u8>,
}

impl<const N: usize> View for BoundedBytes<N> {
    type V = Seq<u8>;

    closed spec fn view(&self) -> Seq<u8> {
        self.items@
    }
}

impl<const N: usize> BoundedBytes<N> {
    /// No more bytes than the capacity.
    pub open spec fn wf(&self) -> bool {
        self@.len() <= N
    }

    /// The empty vector.
    pub fn new() -> (r: Self)
        ensures
            r@ == Seq::<u8>::empty(),
            r.wf(),
    {
        BoundedBytes { items: Vec::new() }
    }

    /// The vector holding `bytes`; `None` when they exceed the capacity.
    pub fn from_slice(bytes: &[u8]) -> (r: Option<Self>)
        ensures
            r is Some <==> bytes@.len() <= N,
            r matches Some(v) ==> v@ == bytes@,
    {
        if bytes.len() <= N {
            Some(BoundedBytes { items: copy_bytes(bytes) })
        } else {
            None
        }
    }

    /// Number of bytes held.
    pub fn len(&self) -> (r: usize)
        ensures
            r == self@.len(),
    {
        self.items.len()
    }

    /// The byte at position `i`.
    pub fn get(&self, i: usize) -> (r: u8)
        requires
            i < self@.len(),
        ensures
            r == self@[i as int],
    {
        self.items[i]
    }

    /// The bytes held.
    pub fn as_slice(&self) -> (r: &[u8])
        ensures
            r@ == self@,
    {
        self.items.as_slice()
    }

    /// Appends `b` when there is room; returns whether it was appended.
    pub fn push(&mut self, b: u8) -> (r: bool)
        ensures
            r == (old(self)@.len() < N),
            final(self)@ == if r {
                old(self)@.push(b)
            } else {
                old(self)@
            },
    {
        if self.items.len() < N {
            self.items.push(b);
            true
        } else {
            false
        }
    }
}

/// `dest` after pushing the first `n` bytes of `src` (as many as it has), each push
/// skipped when `dest` already holds `cap` bytes.
pub open spec fn bounded_append(dest: Seq<u8>, src: Seq<u8>, n: int, cap: int) -> Seq<u8>
    decreases n,
{
    if n <= 0 {
        dest
    } else {
        let prev = bounded_append(dest, src, n - 1, cap);
        if n - 1 < src.len() && prev.len() < cap {
            prev.push(src[n - 1])
        } else {
            prev
        }
    }
}

/// Pushes `src[0..n]` (as far as `src` goes) into `dest`, skipping pushes that do not fit.
pub fn push_prefix<const N: usize>(dest: &mut BoundedBytes<N>, src: &[u8], n: u32)
    ensures
        final(dest)@ == bounded_append(old(dest)@, src@, n as int, N as int),
{
    let mut i: u32 = 0;
    while i < n
        invariant
            i <= n,
            dest@ == bounded_append(old(dest)@, src@, i as int, N as int),
        decreases n - i,
    {
        let iu = i as usize;
        if iu < src.len() {
            dest.push(src[iu]);
        }
        i = i + 1;
    }
}

/// From an empty `dest`, `bounded_append` copies the first `min(n, len, cap)` bytes of `src`.
pub proof fn lemma_bounded_append_prefix(src: Seq<u8>, n: int, cap: int)
    requires
        0 <= cap,
    ensures
        bounded_append(Seq::<u8>::empty(), src, n, cap) == src.take(min3(n, src.len() as int, cap)),
    decreases n,
{
    if n > 0 {
        lemma_bounded_append_prefix(src, n - 1, cap);
        let m = min3(n - 1, src.len() as int, cap);
        if n - 1 < src.len() && m < cap {
            assert(src.take(m).push(src[n - 1]) =~= src.take(m + 1));
        }
    } else {
        assert(src.take(0) =~= Seq::<u8>::empty());
    }
}

/// The smallest of three integers, none below zero.
pub open spec fn min3(a: int, b: int, c: int) -> int {
    let m = if a < b { a } else { b };
    let m2 = if m < c { m } else { c };
    if m2 < 0 { 0 } else { m2 }
}

} // verus!
