//! Reading and seeking over a byte slice held in memory, for decoders that
//! want `Read + Seek`.

use vstd::prelude::*;

verus! {

/// `std::io::Error`, carried through as an opaque value: the error of `Read` and `Seek`.
#[verifier::external_type_specification]
#[verifier::external_body]
pub struct ExIoError(std::io::Error);

/// `std::io::SeekFrom`, carried through as an opaque value: the argument of `Seek::seek`.
#[verifier::external_type_specification]
#[verifier::external_body]
pub struct ExSeekFrom(std::io::SeekFrom);

/// Relies on `std::io::Error::new`: builds the error that a seek before the start of the
/// data reports.
#[verifier::external_body]
fn out_of_bounds() -> std::io::Error {
    std::io::Error::new(std::io::ErrorKind::Other, "out of bounds")
}

/// Relies on `std::io::SeekFrom` having the three variants `Start`, `End` and `Current`:
/// moves each into the variant of the same name.
#[verifier::external_body]
fn origin_of(pos: std::io::SeekFrom) -> SeekOrigin {
    match pos {
        std::io::SeekFrom::Start(n) => SeekOrigin::Start(n),
        std::io::SeekFrom::End(n) => SeekOrigin::End(n),
        std::io::SeekFrom::Current(n) => SeekOrigin::Current(n),
    }
}

/// Where a seek counts from, and by how much.
#[derive(Clone, Copy)]
pub enum SeekOrigin {
    Start(u64),
    End(i64),
    Current(i64),
}

/// A cursor over a borrowed byte slice. The position may lie past the end, where reads
/// yield nothing.
pub struct SliceReadSeek<'a> {
    data: &'a [u8],
    pos: i64,
}

impl<'a> View for SliceReadSeek<'a> {
    /// The bytes, and the position.
    type V = (Seq<u8>, int);

    closed spec fn view(&self) -> (Seq<u8>, int) {
        (self.data@, self.pos as int)
    }
}

/// The position a seek from `pos` over `data_len` bytes lands on, if it is neither before
/// the start nor beyond `i64::MAX`.
pub open spec fn seek_target(data_len: int, pos: int, to: SeekOrigin) -> Option<int> {
    let target = match to {
        SeekOrigin::Start(n) => n as int,
        SeekOrigin::End(n) => data_len + n,
        SeekOrigin::Current(n) => pos + n,
    };
    if 0 <= target <= i64::MAX {
        Some(target)
    } else {
        None
    }
}

/// Number of bytes a read into a buffer of `buf_len` bytes takes from position `pos`.
pub open spec fn read_len(data_len: int, pos: int, buf_len: int) -> int {
    if pos >= data_len {
        0
    } else if buf_len < data_len - pos {
        buf_len
    } else {
        data_len - pos
    }
}

impl<'a> SliceReadSeek<'a> {
    /// The position never lies before the start, and every position up to the end fits in
    /// an `i64`.
    #[verifier::type_invariant]
    spec fn inv(&self) -> bool {
        0 <= self.pos && self.data@.len() <= i64::MAX
    }

    /// A cursor at the start of `slice`; no slice is longer than `isize::MAX` bytes.
    pub fn new(slice: &'a [u8]) -> (r: Self)
        requires
            slice@.len() <= isize::MAX,
        ensures
            r@ == (slice@, 0int),
    {
        SliceReadSeek { data: slice, pos: 0 }
    }

    /// Copies the bytes from the position on into the front of `buf`, as many as fit, and
    /// advances past them. Returns how many were copied.
    pub fn read_into(&mut self, buf: &mut [u8]) -> (n: usize)
        ensures
            n == read_len(old(self)@.0.len() as int, old(self)@.1, old(buf)@.len() as int),
            final(self)@ == (old(self)@.0, old(self)@.1 + n),
            final(buf)@.len() == old(buf)@.len(),
            forall|j: int| 0 <= j < n ==> #[trigger] final(buf)@[j] == old(self)@.0[old(self)@.1 + j],
            final(buf)@.subrange(n as int, old(buf)@.len() as int) == old(buf)@.subrange(
                n as int,
                old(buf)@.len() as int,
            ),
    {
        proof {
            use_type_invariant(&*self);
        }
        let data_len = self.data.len();
        if self.pos as u64 >= data_len as u64 {
            return 0;
        }
        let start = self.pos as usize;
        let rest = data_len - start;
        let n = if buf.len() < rest {
            buf.len()
        } else {
            rest
        };
        let ghost before = buf@;
        let mut k: usize = 0;
        while k < n
            invariant
                k <= n,
                n <= buf@.len(),
                start + n <= data_len,
                data_len == self.data@.len(),
                start == self@.1,
                buf@.len() == before.len(),
                forall|j: int| 0 <= j < k ==> #[trigger] buf@[j] == self.data@[start + j],
                forall|j: int| k <= j < before.len() ==> #[trigger] buf@[j] == before[j],
            decreases n - k,
        {
            buf[k] = self.data[start + k];
            k = k + 1;
        }
        assert(buf@.subrange(n as int, before.len() as int) =~= before.subrange(n as int, before.len() as int));
        self.pos = self.pos + n as i64;
        n
    }

    /// Moves the position; `None`, with the position kept, when the target lies before the
    /// start or beyond `i64::MAX`. Returns the new position.
    pub fn seek_to(&mut self, to: SeekOrigin) -> (r: Option<u64>)
        ensures
            r == (match seek_target(old(self)@.0.len() as int, old(self)@.1, to) {
                Some(t) => Some(t as u64),
                None => None::<u64>,
            }),
            final(self)@ == (match seek_target(old(self)@.0.len() as int, old(self)@.1, to) {
                Some(t) => (old(self)@.0, t),
                None => old(self)@,
            }),
    {
        proof {
            use_type_invariant(&*self);
        }
        let target: Option<i64> = match to {
            SeekOrigin::Start(n) => if n <= i64::MAX as u64 {
                Some(n as i64)
            } else {
                None
            },
            SeekOrigin::End(n) => n.checked_add(self.data.len() as i64),
            SeekOrigin::Current(n) => n.checked_add(self.pos),
        };
        match target {
            Some(t) => {
                if t < 0 {
                    return None;
                }
                self.pos = t;
                Some(t as u64)
            },
            None => None,
        }
    }
}

impl std::io::Read for SliceReadSeek<'_> {
    fn read(&mut self, buf: &mut [u8]) -> std::io::Result<usize> {
        Ok(self.read_into(buf))
    }
}

impl std::io::Seek for SliceReadSeek<'_> {
    fn seek(&mut self, pos: std::io::SeekFrom) -> std::io::Result<u64> {
        match self.seek_to(origin_of(pos)) {
            Some(p) => Ok(p),
            None => Err(out_of_bounds()),
        }
    }
}

} // verus!
