//! Pool of fixed-size byte buffers, reused to avoid per-frame allocations.
use vstd::prelude::*;

verus! {

/// A zero-filled buffer of `n` bytes.
pub open spec fn zeros(n: nat) -> Seq<u8> {
    Seq::new(n, |i: int| 0u8)
}

/// The contents of a list of buffers.
pub open spec fn buffer_views(s: Seq<Vec<u8>>) -> Seq<Seq<u8>> {
    s.map_values(|b: Vec<u8>| b@)
}

/// Pre-allocated buffer pool. Buffers handed back are reused before new ones
/// are allocated, last returned first.
pub struct BufferPool {
    free: Vec<Vec<u8>>,
    buf_size: usize,
}

fn zero_buffer(n: usize) -> (r: Vec<u8>)
    ensures
        r@ == zeros(n as nat),
{
    let mut v: Vec<u8> = Vec::with_capacity(n);
    let mut i: usize = 0;
    while i < n
        invariant
            i <= n,
            v@ == zeros(i as nat),
        decreases n - i,
    {
        v.push(0u8);
        assert(v@ =~= zeros((i + 1) as nat));
        i += 1;
    }
    v
}

impl BufferPool {
    /// The buffers waiting to be reused; the last one is handed out next.
    pub closed spec fn free_buffers(&self) -> Seq<Seq<u8>> {
        buffer_views(self.free@)
    }

    /// The size of freshly allocated buffers.
    pub closed spec fn buffer_size(&self) -> usize {
        self.buf_size
    }

    /// A pool of `initial_count` zero-filled buffers of `buf_size` bytes.
    pub fn new(buf_size: usize, initial_count: usize) -> (r: Self)
        ensures
            r.buffer_size() == buf_size,
            r.free_buffers() == Seq::new(initial_count as nat, |i: int| zeros(buf_size as nat)),
    {
        let mut free: Vec<Vec<u8>> = Vec::with_capacity(initial_count);
        let mut i: usize = 0;
        while i < initial_count
            invariant
                i <= initial_count,
                free@.len() == i,
                buffer_views(free@) =~= Seq::new(i as nat, |j: int| zeros(buf_size as nat)),
            decreases initial_count - i,
        {
            let b = zero_buffer(buf_size);
            let ghost before = free@;
            free.push(b);
            assert forall|j: int| 0 <= j < i + 1 implies buffer_views(free@)[j] == zeros(buf_size as nat) by {
                if j < i {
                    assert(free@[j] == before[j]);
                    assert(buffer_views(before)[j] == zeros(buf_size as nat));
                }
            }
            assert(buffer_views(free@) =~= Seq::new((i + 1) as nat, |j: int| zeros(buf_size as nat)));
            i += 1;
        }
        BufferPool { free, buf_size }
    }

    /// Take a buffer: the most recently returned one, or a new zero-filled
    /// buffer when none is waiting.
    pub fn acquire(&mut self) -> (r: Vec<u8>)
        ensures
            final(self).buffer_size() == old(self).buffer_size(),
            old(self).free_buffers().len() == 0 ==> r@ == zeros(old(self).buffer_size() as nat)
                && final(self).free_buffers() == old(self).free_buffers(),
            old(self).free_buffers().len() > 0 ==> r@ == old(self).free_buffers().last()
                && final(self).free_buffers() == old(self).free_buffers().drop_last(),
    {
        match self.free.pop() {
            Some(b) => {
                assert(buffer_views(self.free@) =~= buffer_views(old(self).free@).drop_last());
                b
            },
            None => zero_buffer(self.buf_size),
        }
    }

    /// Hand a buffer back for reuse.
    pub fn release(&mut self, buf: Vec<u8>)
        ensures
            final(self).buffer_size() == old(self).buffer_size(),
            final(self).free_buffers() == old(self).free_buffers().push(buf@),
    {
        self.free.push(buf);
        assert(buffer_views(self.free@) =~= buffer_views(old(self).free@).push(buf@));
    }
}

/// A buffer handed back is the next one handed out, with its contents as they
/// were returned.
pub proof fn lemma_release_then_acquire(free: Seq<Seq<u8>>, buf: Seq<u8>)
    ensures
        free.push(buf).len() > 0,
        free.push(buf).last() == buf,
        free.push(buf).drop_last() == free,
{
    assert(free.push(buf).drop_last() =~= free);
}

} // verus!
