//! Cutting a sample stream into fixed-size chunks.
//!
//! The resampler works on blocks of a fixed number of input samples; samples
//! are collected here until a whole block is available, and the remainder
//! waits for the next input.
use vstd::prelude::*;

verus! {

/// The sample sequences of a list of chunks.
pub open spec fn chunk_views(chunks: Seq<Vec<i16>>) -> Seq<Seq<i16>> {
    chunks.map_values(|c: Vec<i16>| c@)
}

/// Samples waiting for a whole chunk.
pub struct SampleChunker {
    buffer: Vec<i16>,
    chunk_size: usize,
}

impl SampleChunker {
    /// The samples waiting.
    pub closed spec fn pending(&self) -> Seq<i16> {
        self.buffer@
    }

    /// The number of samples in a chunk.
    pub closed spec fn size(&self) -> usize {
        self.chunk_size
    }

    /// A chunker for chunks of `chunk_size` samples, with nothing waiting.
    pub fn new(chunk_size: usize) -> (r: Self)
        ensures
            r.size() == chunk_size,
            r.pending() == Seq::<i16>::empty(),
    {
        SampleChunker { buffer: Vec::new(), chunk_size }
    }

    /// The number of samples in a chunk.
    pub fn chunk_size(&self) -> (r: usize)
        ensures
            r == self.size(),
    {
        self.chunk_size
    }

    /// Add `input` after the waiting samples and take out every whole chunk,
    /// in order; fewer than a chunk's worth of samples stay waiting.
    pub fn push(&mut self, input: &[i16]) -> (chunks: Vec<Vec<i16>>)
        requires
            old(self).size() > 0,
        ensures
            final(self).size() == old(self).size(),
            sizes_are(chunk_views(chunks@), old(self).size() as nat),
            chunk_views(chunks@).flatten() + final(self).pending() == old(self).pending()
                + input@,
            final(self).pending().len() < old(self).size(),
    {
        let cs = self.chunk_size;
        let mut all: Vec<i16> = Vec::new();
        std::mem::swap(&mut all, &mut self.buffer);
        all.extend_from_slice(input);
        let ghost whole = all@;
        let mut chunks: Vec<Vec<i16>> = Vec::new();
        let mut start: usize = 0;
        proof {
            assert(chunk_views(chunks@) =~= Seq::<Seq<i16>>::empty());
            assert(chunk_views(chunks@).flatten() =~= whole.subrange(0, 0));
        }
        while all.len() - start >= cs
            invariant
                cs > 0,
                all@ == whole,
                start <= whole.len(),
                sizes_are(chunk_views(chunks@), cs as nat),
                chunk_views(chunks@).flatten() == whole.subrange(0, start as int),
            decreases whole.len() - start,
        {
            let mut chunk: Vec<i16> = Vec::new();
            let mut j: usize = 0;
            while j < cs
                invariant
                    cs > 0,
                    all@ == whole,
                    start + cs <= whole.len(),
                    whole.len() == all.len(),
                    j <= cs,
                    chunk@ == whole.subrange(start as int, start + j),
                decreases cs - j,
            {
                chunk.push(all[start + j]);
                proof {
                    assert(chunk@ =~= whole.subrange(start as int, start + j + 1));
                }
                j = j + 1;
            }
            let ghost before = chunk_views(chunks@);
            chunks.push(chunk);
            proof {
                assert(chunk_views(chunks@) =~= before.push(whole.subrange(
                    start as int,
                    start + cs,
                )));
                before.lemma_flatten_push(whole.subrange(start as int, start + cs));
                assert(whole.subrange(0, start as int) + whole.subrange(start as int, start + cs)
                    =~= whole.subrange(0, start + cs));
            }
            start = start + cs;
        }
        let mut rest: Vec<i16> = Vec::new();
        let mut k = start;
        while k < all.len()
            invariant
                all@ == whole,
                start <= k <= whole.len(),
                rest@ == whole.subrange(start as int, k as int),
            decreases whole.len() - k,
        {
            rest.push(all[k]);
            proof {
                assert(rest@ =~= whole.subrange(start as int, k + 1));
            }
            k = k + 1;
        }
        proof {
            assert(whole.subrange(0, start as int) + whole.subrange(start as int, whole.len() as int)
                =~= whole);
        }
        self.buffer = rest;
        chunks
    }

    /// Take what is waiting as one last chunk, padded with silence to a whole
    /// chunk; nothing when nothing is waiting.
    pub fn flush(&mut self) -> (r: Option<Vec<i16>>)
        ensures
            final(self).size() == old(self).size(),
            final(self).pending() == Seq::<i16>::empty(),
            old(self).pending().len() == 0 ==> r is None,
            old(self).pending().len() > 0 ==> (r matches Some(c) && c@ == old(self).pending()
                + Seq::new(
                (if old(self).pending().len() < old(self).size() {
                    old(self).size() - old(self).pending().len()
                } else {
                    0
                }) as nat,
                |i: int| 0i16,
            )),
    {
        if self.buffer.len() == 0 {
            return None;
        }
        let mut chunk: Vec<i16> = Vec::new();
        std::mem::swap(&mut chunk, &mut self.buffer);
        let ghost start = chunk@;
        let target = self.chunk_size;
        // Pad with zeros to make a complete chunk
        while chunk.len() < target
            invariant
                start.len() <= chunk@.len(),
                chunk@.len() <= target || chunk@.len() == start.len(),
                chunk@ == start + Seq::new((chunk@.len() - start.len()) as nat, |i: int| 0i16),
            decreases target - chunk@.len(),
        {
            chunk.push(0);
            proof {
                assert(chunk@ =~= start + Seq::new(
                    (chunk@.len() - start.len()) as nat,
                    |i: int| 0i16,
                ));
            }
        }
        proof {
            let pad = if start.len() < target {
                target - start.len()
            } else {
                0
            };
            assert(chunk@.len() - start.len() == pad);
        }
        Some(chunk)
    }

    /// Drop what is waiting.
    pub fn reset(&mut self)
        ensures
            final(self).size() == old(self).size(),
            final(self).pending() == Seq::<i16>::empty(),
    {
        self.buffer.clear();
    }
}

/// Every sequence in `chunks` has `size` elements.
pub open spec fn sizes_are(chunks: Seq<Seq<i16>>, size: nat) -> bool {
    forall|i: int| 0 <= i < chunks.len() ==> (#[trigger] chunks[i]).len() == size
}

/// A stream is cut into whole chunks and a short remainder in one way only.
pub proof fn lemma_chunking_unique(
    c1: Seq<Seq<i16>>,
    r1: Seq<i16>,
    c2: Seq<Seq<i16>>,
    r2: Seq<i16>,
    size: nat,
)
    requires
        size > 0,
        sizes_are(c1, size),
        sizes_are(c2, size),
        r1.len() < size,
        r2.len() < size,
        c1.flatten() + r1 == c2.flatten() + r2,
    ensures
        c1 == c2,
        r1 == r2,
    decreases c1.len(),
{
    if c1.len() == 0 && c2.len() == 0 {
        assert(c1.flatten() =~= Seq::<i16>::empty());
        assert(c2.flatten() =~= Seq::<i16>::empty());
        assert(r1 =~= c1.flatten() + r1);
        assert(r2 =~= c2.flatten() + r2);
        assert(c1 =~= c2);
    } else if c1.len() == 0 {
        assert(c1.flatten() =~= Seq::<i16>::empty());
        assert(r1 =~= c1.flatten() + r1);
        assert(c2.flatten() == c2[0] + c2.drop_first().flatten());
        assert(c2[0].len() == size);
        assert(false);
    } else if c2.len() == 0 {
        assert(c2.flatten() =~= Seq::<i16>::empty());
        assert(r2 =~= c2.flatten() + r2);
        assert(c1.flatten() == c1[0] + c1.drop_first().flatten());
        assert(c1[0].len() == size);
        assert(false);
    } else {
        let s = c1.flatten() + r1;
        assert(c1.flatten() == c1[0] + c1.drop_first().flatten());
        assert(c2.flatten() == c2[0] + c2.drop_first().flatten());
        assert(c1[0].len() == size);
        assert(c2[0].len() == size);
        assert(s =~= c1[0] + (c1.drop_first().flatten() + r1));
        assert(s =~= c2[0] + (c2.drop_first().flatten() + r2));
        assert(c1[0] =~= s.subrange(0, size as int));
        assert(c2[0] =~= s.subrange(0, size as int));
        assert(c1.drop_first().flatten() + r1 =~= s.subrange(size as int, s.len() as int));
        assert(c2.drop_first().flatten() + r2 =~= s.subrange(size as int, s.len() as int));
        assert(sizes_are(c1.drop_first(), size)) by {
            assert forall|i: int| 0 <= i < c1.drop_first().len() implies #[trigger] c1.drop_first()[i].len() == size by {
                assert(c1.drop_first()[i] == c1[i + 1]);
            }
        }
        assert(sizes_are(c2.drop_first(), size)) by {
            assert forall|i: int| 0 <= i < c2.drop_first().len() implies #[trigger] c2.drop_first()[i].len() == size by {
                assert(c2.drop_first()[i] == c2[i + 1]);
            }
        }
        lemma_chunking_unique(c1.drop_first(), r1, c2.drop_first(), r2, size);
        assert(c1 =~= c2) by {
            assert forall|i: int| 0 <= i < c1.len() implies c1[i] == c2[i] by {
                if i > 0 {
                    assert(c1[i] == c1.drop_first()[i - 1]);
                    assert(c2[i] == c2.drop_first()[i - 1]);
                }
            }
        }
    }
}

/// Chunking does not depend on how the input is split over calls: pushing
/// `a` and then `b` gives the chunks, and leaves the remainder, that pushing
/// `a + b` at once gives.
pub proof fn lemma_push_split_independent(
    pending: Seq<i16>,
    a: Seq<i16>,
    b: Seq<i16>,
    c1: Seq<Seq<i16>>,
    r1: Seq<i16>,
    c2: Seq<Seq<i16>>,
    r2: Seq<i16>,
    c: Seq<Seq<i16>>,
    r: Seq<i16>,
    size: nat,
)
    requires
        size > 0,
        sizes_are(c1, size),
        c1.flatten() + r1 == pending + a,
        r1.len() < size,
        sizes_are(c2, size),
        c2.flatten() + r2 == r1 + b,
        r2.len() < size,
        sizes_are(c, size),
        c.flatten() + r == pending + a + b,
        r.len() < size,
    ensures
        c == c1 + c2,
        r == r2,
{
    vstd::seq_lib::lemma_flatten_concat(c1, c2);
    assert((c1 + c2).flatten() + r2 =~= pending + a + b) by {
        assert((c1 + c2).flatten() + r2 =~= c1.flatten() + (c2.flatten() + r2));
        assert(c1.flatten() + (r1 + b) =~= (c1.flatten() + r1) + b);
    }
    assert(sizes_are(c1 + c2, size)) by {
        assert forall|i: int| 0 <= i < (c1 + c2).len() implies #[trigger] (c1 + c2)[i].len()
            == size by {
            if i < c1.len() {
                assert((c1 + c2)[i] == c1[i]);
            } else {
                assert((c1 + c2)[i] == c2[i - c1.len()]);
            }
        }
    }
    lemma_chunking_unique(c, r, c1 + c2, r2, size);
}

} // verus!
