//! Fixed-capacity, NUL-terminated byte buffers: the representation of every
//! text field of the shared record. Writers copy the input bytes wholesale
//! up to one below the capacity and zero-fill the remainder, so the last
//! byte is always a terminator; readers stop at the first zero byte, so
//! input bytes past an interior NUL are stored but never read back as text.

use vstd::prelude::*;

verus! {

/// Index of the first zero byte in `s`, or `s.len()` when none occurs.
pub open spec fn first_zero(s: Seq<u8>) -> int
    decreases s.len(),
{
    if s.len() == 0 {
        0
    } else if s[0] == 0 {
        0
    } else {
        1 + first_zero(s.skip(1))
    }
}

/// The text a raw field holds: its bytes up to the first zero.
pub open spec fn text_of(raw: Seq<u8>) -> Seq<u8> {
    raw.take(first_zero(raw))
}

/// The raw bytes of a field of capacity `n` after `t` is written into it:
/// the first `min(t.len(), n - 1)` bytes of `t` as they are, interior zero
/// bytes included, then zero fill.
pub open spec fn spec_stored_bytes(t: Seq<u8>, n: int) -> Seq<u8> {
    Seq::new(n as nat, |j: int| if j < t.len() && j < n - 1 { t[j] } else { 0u8 })
}

/// The text read back from a field after `t` is written into it: `t` cut at
/// its first zero byte, and at the field's capacity `cap` for a terminator.
pub open spec fn stored_text(t: Seq<u8>, cap: int) -> Seq<u8> {
    if first_zero(t) <= cap {
        t.take(first_zero(t))
    } else {
        t.take(cap)
    }
}

pub proof fn lemma_first_zero_bounds(s: Seq<u8>)
    ensures
        0 <= first_zero(s) <= s.len(),
        forall|j: int| 0 <= j < first_zero(s) ==> s[j] != 0,
        first_zero(s) < s.len() ==> s[first_zero(s)] == 0,
    decreases s.len(),
{
    if s.len() > 0 && s[0] != 0 {
        lemma_first_zero_bounds(s.skip(1));
        assert forall|j: int| 0 <= j < first_zero(s) implies s[j] != 0 by {
            if j >= 1 {
                assert(s.skip(1)[j - 1] == s[j]);
            }
        }
        if first_zero(s) < s.len() {
            assert(s.skip(1)[first_zero(s) - 1] == s[first_zero(s)]);
        }
    }
}

/// `first_zero` is pinned down by the position of the first zero byte.
pub proof fn lemma_first_zero_is(s: Seq<u8>, i: int)
    requires
        0 <= i <= s.len(),
        forall|j: int| 0 <= j < i ==> s[j] != 0,
        i < s.len() ==> s[i] == 0,
    ensures
        first_zero(s) == i,
    decreases s.len(),
{
    if s.len() == 0 {
    } else if s[0] == 0 {
    } else {
        assert(s[0] != 0);
        assert forall|j: int| 0 <= j < i - 1 implies s.skip(1)[j] != 0 by {
            assert(s.skip(1)[j] == s[j + 1]);
        }
        if i - 1 < s.skip(1).len() {
            assert(s.skip(1)[i - 1] == s[i]);
        }
        lemma_first_zero_is(s.skip(1), i - 1);
    }
}

/// A raw field that is already exactly `n` bytes with a final terminator is
/// stored as it is.
pub proof fn lemma_stored_bytes_id(t: Seq<u8>, n: int)
    requires
        n >= 1,
        t.len() == n,
        t[n - 1] == 0,
    ensures
        spec_stored_bytes(t, n) == t,
{
    assert(spec_stored_bytes(t, n) =~= t);
}

/// Reading back a freshly written field gives the input cut at its first
/// zero byte and at the capacity left for the terminator.
pub proof fn lemma_stored_bytes_text(t: Seq<u8>, n: int)
    requires
        n >= 1,
    ensures
        text_of(spec_stored_bytes(t, n)) == stored_text(t, n - 1),
{
    lemma_first_zero_bounds(t);
    let s = spec_stored_bytes(t, n);
    let k = if first_zero(t) <= n - 1 {
        first_zero(t)
    } else {
        n - 1
    };
    lemma_first_zero_is(s, k);
    assert(text_of(s) =~= stored_text(t, n - 1));
}

/// Round-trip law: writing a zero-free text into a bounded buffer and
/// reading it back yields the text itself whenever it fits below the
/// capacity `cap` reserved for the terminator, and its first `cap` bytes —
/// still terminated within the buffer — when it does not.
pub proof fn lemma_text_round_trip(t: Seq<u8>, cap: int)
    requires
        0 <= cap,
        forall|j: int| 0 <= j < t.len() ==> t[j] != 0,
    ensures
        t.len() <= cap ==> stored_text(t, cap) == t,
        t.len() > cap ==> stored_text(t, cap) == t.take(cap),
{
    lemma_first_zero_is(t, t.len() as int);
    if t.len() <= cap {
        assert(stored_text(t, cap) =~= t);
    }
}

/// A byte buffer of fixed capacity `N` whose last byte is always a zero
/// terminator; bytes between the first zero and the end are kept as
/// written.
pub struct TextBuf<const N: usize> {
    bytes: Vec<u8>,
}

impl<const N: usize> TextBuf<N> {
    /// The raw stored bytes, always exactly `N` of them.
    pub closed spec fn raw(self) -> Seq<u8> {
        self.bytes@
    }

    pub open spec fn wf(self) -> bool {
        &&& N >= 1
        &&& self.raw().len() == N as int
        &&& self.raw()[N as int - 1] == 0
    }

    /// The text the buffer holds: its bytes up to the first zero.
    pub open spec fn text(self) -> Seq<u8> {
        text_of(self.raw())
    }

    /// A well-formed buffer holds a text shorter than its capacity,
    /// free of zero bytes.
    pub proof fn lemma_text_wf(self)
        requires
            self.wf(),
        ensures
            self.text().len() < N as int,
            forall|j: int| 0 <= j < self.text().len() ==> self.text()[j] != 0,
    {
        lemma_first_zero_bounds(self.raw());
        if first_zero(self.raw()) == N as int {
            assert(self.raw()[N as int - 1] != 0);
        }
    }

    /// An all-zero buffer, holding the empty text.
    pub fn empty() -> (r: Self)
        requires
            N >= 1,
        ensures
            r.wf(),
            r.text() == Seq::<u8>::empty(),
            r.raw() == Seq::new(N as nat, |j: int| 0u8),
    {
        let mut bytes: Vec<u8> = Vec::new();
        while bytes.len() < N
            invariant
                bytes@.len() <= N as int,
                forall|j: int| 0 <= j < bytes@.len() ==> bytes@[j] == 0,
            decreases N as int - bytes@.len(),
        {
            bytes.push(0);
        }
        let r = TextBuf { bytes };
        proof {
            lemma_first_zero_is(r.raw(), 0);
            assert(r.text() =~= Seq::<u8>::empty());
            assert(r.raw() =~= Seq::new(N as nat, |j: int| 0u8));
        }
        r
    }

    /// Overwrite the buffer with `t`: copy the first `min(t.len(), N - 1)`
    /// bytes of `t` as they are, then zero-fill the remainder. Never fails;
    /// oversized input is truncated, and the last byte stays a terminator.
    pub fn set_text(&mut self, t: &[u8])
        requires
            old(self).wf(),
        ensures
            final(self).wf(),
            final(self).raw() == spec_stored_bytes(t@, N as int),
            final(self).text() == stored_text(t@, N as int - 1),
    {
        let cap: usize = N - 1;
        let m: usize = if t.len() < cap {
            t.len()
        } else {
            cap
        };
        let mut bytes: Vec<u8> = Vec::new();
        let mut i: usize = 0;
        while i < m
            invariant
                0 <= i <= m,
                m <= t@.len(),
                m == if t@.len() < N as int - 1 { t@.len() as int } else { N as int - 1 },
                bytes@.len() == i as int,
                forall|j: int| 0 <= j < i ==> bytes@[j] == t@[j],
            decreases m - i,
        {
            bytes.push(t[i]);
            i += 1;
        }
        while bytes.len() < N
            invariant
                0 <= m <= t@.len(),
                m <= bytes@.len() <= N as int,
                forall|j: int| 0 <= j < m ==> bytes@[j] == t@[j],
                forall|j: int| m <= j < bytes@.len() ==> bytes@[j] == 0,
            decreases N as int - bytes@.len(),
        {
            let ghost prev = bytes@;
            bytes.push(0);
            proof {
                assert forall|j: int| m <= j < bytes@.len() implies bytes@[j] == 0 by {
                    if j < prev.len() {
                        assert(bytes@[j] == prev[j]);
                    }
                }
            }
        }
        self.bytes = bytes;
        proof {
            assert(self.raw() =~= spec_stored_bytes(t@, N as int));
            lemma_stored_bytes_text(t@, N as int);
        }
    }

    /// Read the buffer's text: its bytes up to the first zero.
    pub fn get_text(&self) -> (r: Vec<u8>)
        requires
            self.wf(),
        ensures
            r@ == self.text(),
    {
        let mut r: Vec<u8> = Vec::new();
        let mut i: usize = 0;
        proof {
            lemma_first_zero_bounds(self.raw());
            if first_zero(self.raw()) == N as int {
                assert(self.raw()[N as int - 1] != 0);
            }
        }
        loop
            invariant
                self.wf(),
                0 <= i as int <= first_zero(self.raw()),
                first_zero(self.raw()) < N as int,
                r@.len() == i as int,
                forall|j: int| 0 <= j < i ==> r@[j] == self.raw()[j] && self.raw()[j] != 0,
            ensures
                i < N,
                r@.len() == i as int,
                forall|j: int| 0 <= j < i ==> r@[j] == self.raw()[j] && self.raw()[j] != 0,
                self.raw()[i as int] == 0,
            decreases N as int - i,
        {
            let b = self.bytes[i];
            if b == 0 {
                break ;
            }
            r.push(b);
            i += 1;
            proof {
                lemma_first_zero_bounds(self.raw());
            }
        }
        proof {
            lemma_first_zero_is(self.raw(), i as int);
            assert(r@ =~= self.text());
        }
        r
    }

    /// One raw stored byte, zero fill and bytes past an interior NUL
    /// included.
    pub fn raw_byte(&self, j: usize) -> (r: u8)
        requires
            self.wf(),
            j < N,
        ensures
            r == self.raw()[j as int],
    {
        self.bytes[j]
    }
}

} // verus!
