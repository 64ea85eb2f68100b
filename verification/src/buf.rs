//! A receive buffer: bytes that have arrived from a stream and have not been
//! consumed yet, with the boundaries of the chunks they arrived in.
use vstd::prelude::*;

verus! {

/// Chunk ends `e` describe `len` buffered bytes: each end is where a chunk
/// that arrived stops, counted from the first buffered byte; they increase,
/// lie in `(0, len]`, and the last one is `len`.
pub open spec fn spec_chunks_ok(e: Seq<int>, len: int) -> bool {
    &&& forall|i: int, j: int| 0 <= i < j < e.len() ==> e[i] < e[j]
    &&& forall|i: int| 0 <= i < e.len() ==> 0 < #[trigger] e[i] <= len
    &&& (len > 0 <==> e.len() > 0)
    &&& e.len() > 0 ==> e.last() == len
}

/// The chunk ends after the first `n` buffered bytes are consumed: the
/// chunks consumed whole are gone, the others end `n` bytes earlier.
pub open spec fn spec_after_advance(e: Seq<int>, n: int) -> Seq<int>
    decreases e.len(),
{
    if e.len() > 0 && e[0] <= n {
        spec_after_advance(e.drop_first(), n)
    } else {
        Seq::new(e.len(), |i: int| e[i] - n)
    }
}

/// The chunk ends after a chunk of `k` bytes arrives in a buffer holding
/// `len` bytes: an empty chunk leaves no trace.
pub open spec fn spec_after_push(e: Seq<int>, len: int, k: int) -> Seq<int> {
    if k == 0 {
        e
    } else {
        e.push(len + k)
    }
}

/// The length of the first buffered chunk, 0 when nothing is buffered.
pub open spec fn spec_front_len(e: Seq<int>) -> int {
    if e.len() > 0 {
        e[0]
    } else {
        0
    }
}

/// Consuming nothing changes no chunk end.
pub proof fn lemma_advance_zero(e: Seq<int>, len: int)
    requires
        spec_chunks_ok(e, len),
    ensures
        spec_after_advance(e, 0) == e,
{
    assert(spec_after_advance(e, 0) =~= e);
}

/// Consuming every byte leaves no chunk.
pub proof fn lemma_advance_all(e: Seq<int>, n: int)
    requires
        forall|i: int| 0 <= i < e.len() ==> #[trigger] e[i] <= n,
    ensures
        spec_after_advance(e, n) == Seq::<int>::empty(),
    decreases e.len(),
{
    if e.len() > 0 {
        assert(e[0] <= n);
        assert forall|i: int| 0 <= i < e.drop_first().len() implies #[trigger] e.drop_first()[i] <= n by {
            assert(e.drop_first()[i] == e[i + 1]);
        }
        lemma_advance_all(e.drop_first(), n);
    } else {
        assert(spec_after_advance(e, n) =~= Seq::<int>::empty());
    }
}

/// Consuming `a` bytes, then `b`, leaves the chunks that consuming `a + b`
/// bytes at once leaves.
pub proof fn lemma_advance_compose(e: Seq<int>, len: int, a: int, b: int)
    requires
        spec_chunks_ok(e, len),
        0 <= a,
        0 <= b,
        a + b <= len,
    ensures
        spec_after_advance(spec_after_advance(e, a), b) == spec_after_advance(e, a + b),
        spec_chunks_ok(spec_after_advance(e, a), len - a),
    decreases e.len(),
{
    if e.len() > 0 && e[0] <= a {
        let t = e.drop_first();
        if t.len() > 0 {
            assert(t.last() == e.last());
            assert forall|i: int| 0 <= i < t.len() implies 0 < #[trigger] t[i] <= len by {
                assert(t[i] == e[i + 1]);
            }
            assert forall|i: int, j: int| 0 <= i < j < t.len() implies t[i] < t[j] by {
                assert(t[i] == e[i + 1] && t[j] == e[j + 1]);
            }
            assert(spec_chunks_ok(t, len));
            assert(e[0] <= a + b);
            lemma_advance_compose(t, len, a, b);
        } else {
            assert(e.last() == len && e[0] == len);
            assert(spec_after_advance(t, a) =~= Seq::<int>::empty());
            assert(spec_after_advance(t, a + b) =~= Seq::<int>::empty());
            assert(spec_after_advance(Seq::<int>::empty(), b) =~= Seq::<int>::empty());
        }
    } else {
        let m = spec_after_advance(e, a);
        assert(m =~= Seq::new(e.len(), |i: int| e[i] - a));
        if e.len() > 0 {
            assert(m.last() == e.last() - a);
        }
        assert(spec_chunks_ok(m, len - a));
        lemma_advance_shifted(e, a, b);
    }
}

/// Consuming `b` more bytes from chunk ends shifted by `a` is consuming
/// `a + b` from the unshifted ones, when the first end exceeds `a`.
proof fn lemma_advance_shifted(e: Seq<int>, a: int, b: int)
    requires
        forall|i: int, j: int| 0 <= i < j < e.len() ==> e[i] < e[j],
        e.len() > 0 ==> e[0] > a,
    ensures
        spec_after_advance(Seq::new(e.len(), |i: int| e[i] - a), b) == spec_after_advance(e, a + b),
    decreases e.len(),
{
    let m = Seq::new(e.len(), |i: int| e[i] - a);
    if e.len() > 0 && e[0] <= a + b {
        let t = e.drop_first();
        assert(m.drop_first() =~= Seq::new(t.len(), |i: int| t[i] - a));
        assert forall|i: int, j: int| 0 <= i < j < t.len() implies t[i] < t[j] by {
            assert(t[i] == e[i + 1] && t[j] == e[j + 1]);
        }
        if t.len() > 0 {
            assert(t[0] == e[1]);
        }
        lemma_advance_shifted(t, a, b);
    } else {
        assert(spec_after_advance(m, b) =~= spec_after_advance(e, a + b));
    }
}

/// The chunk ends of `ends[first..]` measured from `start`.
pub open spec fn spec_relative_ends(ends: Seq<usize>, first: int, start: int) -> Seq<int> {
    Seq::new((ends.len() - first) as nat, |i: int| ends[first + i] - start)
}

/// Received, not yet consumed bytes, with the boundaries of the chunks they
/// arrived in. Consuming releases storage once everything has been consumed.
#[derive(Debug)]
pub struct BufList {
    data: Vec<u8>,
    start: usize,
    ends: Vec<usize>,
    first: usize,
}

impl View for BufList {
    type V = Seq<u8>;

    closed spec fn view(&self) -> Seq<u8> {
        self.data@.skip(self.start as int)
    }
}

impl BufList {
    #[verifier::type_invariant]
    closed spec fn wf(self) -> bool {
        &&& self.start <= self.data@.len()
        &&& self.first <= self.ends@.len()
        &&& spec_chunks_ok(
            spec_relative_ends(self.ends@, self.first as int, self.start as int),
            self.data@.len() - self.start,
        )
    }

    /// Where the chunks still buffered end, counted from the first buffered
    /// byte.
    pub closed spec fn chunk_ends(&self) -> Seq<int> {
        spec_relative_ends(self.ends@, self.first as int, self.start as int)
    }

    /// An empty buffer.
    pub fn new() -> (b: Self)
        ensures
            b@ == Seq::<u8>::empty(),
            b.chunk_ends() == Seq::<int>::empty(),
    {
        let b = BufList { data: Vec::new(), start: 0, ends: Vec::new(), first: 0 };
        assert(b@ =~= Seq::<u8>::empty());
        assert(b.chunk_ends() =~= Seq::<int>::empty());
        b
    }

    /// A buffer holding `bytes`, as one chunk.
    pub fn from_vec(bytes: Vec<u8>) -> (b: Self)
        ensures
            b@ == bytes@,
            b.chunk_ends() == spec_after_push(Seq::<int>::empty(), 0, bytes@.len() as int),
    {
        let mut b = BufList::new();
        let slice = bytes.as_slice();
        b.push(slice);
        assert(b@ =~= bytes@);
        b
    }

    /// Appends a newly received chunk.
    pub fn push(&mut self, bytes: &[u8])
        ensures
            final(self)@ == old(self)@ + bytes@,
            final(self).chunk_ends() == spec_after_push(old(self).chunk_ends(), old(self)@.len() as int, bytes@.len() as int),
            spec_chunks_ok(old(self).chunk_ends(), old(self)@.len() as int),
            spec_chunks_ok(final(self).chunk_ends(), final(self)@.len() as int),
    {
        proof {
            use_type_invariant(&*self);
        }
        let ghost before = self@;
        let ghost e0 = self.chunk_ends();
        if bytes.len() == 0 {
            assert(before + bytes@ =~= before);
            return;
        }
        let mut tmp = BufList::new();
        std::mem::swap(&mut tmp, self);
        proof {
            use_type_invariant(&tmp);
        }
        let BufList { mut data, start, mut ends, first } = tmp;
        let ghost d0 = data@;
        let ghost ends0 = ends@;
        data.extend_from_slice(bytes);
        assert(data@ =~= d0 + bytes@);
        assert(data@.skip(start as int) =~= before + bytes@);
        assert(bytes@.take(bytes@.len() as int) =~= bytes@);
        let total = data.len();
        ends.push(total);
        assert(spec_relative_ends(ends@, first as int, start as int) =~= e0.push((before.len() + bytes@.len()) as int));
        *self = BufList { data, start, ends, first };
    }

    /// Number of bytes not consumed.
    pub fn remaining(&self) -> (n: usize)
        ensures
            n == self@.len(),
            spec_chunks_ok(self.chunk_ends(), self@.len() as int),
    {
        proof {
            use_type_invariant(self);
        }
        self.data.len() - self.start
    }

    /// Whether any byte is left.
    pub fn has_remaining(&self) -> (b: bool)
        ensures
            b == (self@.len() > 0),
            spec_chunks_ok(self.chunk_ends(), self@.len() as int),
    {
        self.remaining() > 0
    }

    /// The bytes not consumed.
    pub fn bytes(&self) -> (s: &[u8])
        ensures
            s@ == self@,
            spec_chunks_ok(self.chunk_ends(), self@.len() as int),
    {
        proof {
            use_type_invariant(self);
        }
        let s = vstd::slice::slice_subrange(self.data.as_slice(), self.start, self.data.len());
        assert(s@ =~= self@);
        s
    }

    /// Consumes the first `n` bytes.
    pub fn advance(&mut self, n: usize)
        requires
            n <= old(self)@.len(),
        ensures
            final(self)@ == old(self)@.skip(n as int),
            final(self).chunk_ends() == spec_after_advance(old(self).chunk_ends(), n as int),
            spec_chunks_ok(old(self).chunk_ends(), old(self)@.len() as int),
            spec_chunks_ok(final(self).chunk_ends(), final(self)@.len() as int),
    {
        proof {
            use_type_invariant(&*self);
        }
        let ghost before = self@;
        let ghost e0 = self.chunk_ends();
        let mut tmp = BufList::new();
        std::mem::swap(&mut tmp, self);
        proof {
            use_type_invariant(&tmp);
        }
        let BufList { data, start, ends, first } = tmp;
        let dl = data.len();
        let new_start = start + n;
        if new_start == dl {
            proof {
                lemma_advance_all(e0, n as int);
            }
            *self = BufList { data: Vec::new(), start: 0, ends: Vec::new(), first: 0 };
            assert(self.chunk_ends() =~= Seq::<int>::empty());
        } else {
            proof {
                let r0 = spec_relative_ends(ends@, first as int, start as int);
                assert forall|i: int, j: int| first <= i < j < ends@.len() implies ends@[i] < ends@[j] by {
                    assert(r0[i - first] < r0[j - first]);
                }
                assert forall|i: int| first <= i < ends@.len() implies start < #[trigger] ends@[i] <= dl by {
                    assert(0 < r0[i - first] <= dl - start);
                }
                assert(r0.last() == dl - start);
            }
            let mut f = first;
            while f < ends.len() && ends[f] <= new_start
                invariant
                    first <= f < ends.len(),
                    start <= new_start < dl,
                    ends@[ends@.len() - 1] == dl,
                    forall|i: int, j: int| first <= i < j < ends@.len() ==> ends@[i] < ends@[j],
                    forall|i: int| first <= i < ends@.len() ==> start < #[trigger] ends@[i] <= dl,
                    spec_after_advance(spec_relative_ends(ends@, f as int, start as int), n as int)
                        == spec_after_advance(e0, n as int),
                    e0 == spec_relative_ends(ends@, first as int, start as int),
                    n == new_start - start,
                decreases ends.len() - f,
            {
                let ghost r = spec_relative_ends(ends@, f as int, start as int);
                assert(r.drop_first() =~= spec_relative_ends(ends@, f + 1, start as int));
                assert(r[0] <= n);
                f = f + 1;
            }
            let ghost r = spec_relative_ends(ends@, f as int, start as int);
            assert(ends@[f as int] > new_start);
            assert(spec_after_advance(r, n as int) =~= spec_relative_ends(ends@, f as int, new_start as int));
            *self = BufList { data, start: new_start, ends, first: f };
        }
        assert(self@ =~= before.skip(n as int));
    }

    /// Takes the rest of the first buffered chunk, up to `max` bytes: `None`
    /// when nothing is buffered.
    pub fn take_chunk(&mut self, max: u64) -> (r: Option<Vec<u8>>)
        ensures
            spec_chunks_ok(old(self).chunk_ends(), old(self)@.len() as int),
            old(self)@.len() == 0 ==> r is None && final(self)@ == old(self)@ && final(self).chunk_ends() == old(self).chunk_ends(),
            old(self)@.len() > 0 ==> {
                let front = spec_front_len(old(self).chunk_ends());
                let k = if front < max { front } else { max as int };
                &&& r matches Some(v) && v@ == old(self)@.take(k)
                &&& final(self)@ == old(self)@.skip(k)
                &&& final(self).chunk_ends() == spec_after_advance(old(self).chunk_ends(), k)
            },
    {
        proof {
            use_type_invariant(&*self);
        }
        let n = self.remaining();
        if n == 0 {
            return None;
        }
        assert(self.chunk_ends()[0] == self.ends@[self.first as int] - self.start);
        let front = self.ends[self.first] - self.start;
        assert(front == spec_front_len(self.chunk_ends()));
        let k: usize = if (front as u64) < max { front } else { max as usize };
        let chunk = vstd::slice::slice_to_vec(vstd::slice::slice_subrange(self.bytes(), 0, k));
        assert(chunk@ =~= old(self)@.take(k as int));
        self.advance(k);
        Some(chunk)
    }
}

} // verus!
