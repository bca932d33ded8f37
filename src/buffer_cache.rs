//! A pool of reusable buffers, so that frames read at a steady rate do not
//! each allocate a buffer of their own.
use vstd::prelude::*;
use std::collections::VecDeque;

verus! {

/// A buffer that can be emptied and handed out again.
pub trait Buffer: Sized {
    /// The buffer holds nothing.
    spec fn is_cleared(&self) -> bool;

    /// A new, empty buffer with room for about `capacity` items.
    fn new_buffer(capacity: usize) -> (r: Self)
        ensures
            r.is_cleared(),
    ;

    /// Empties the buffer.
    fn clear(&mut self)
        ensures
            final(self).is_cleared(),
    ;
}

impl<T> Buffer for Vec<T> {
    open spec fn is_cleared(&self) -> bool {
        self@.len() == 0
    }

    fn new_buffer(capacity: usize) -> (r: Self) {
        Vec::with_capacity(capacity)
    }

    fn clear(&mut self) {
        Vec::clear(self)
    }
}

impl<T> Buffer for VecDeque<T> {
    open spec fn is_cleared(&self) -> bool {
        self@.len() == 0
    }

    fn new_buffer(capacity: usize) -> (r: Self) {
        VecDeque::with_capacity(capacity)
    }

    fn clear(&mut self) {
        VecDeque::clear(self)
    }
}

impl Buffer for String {
    open spec fn is_cleared(&self) -> bool {
        self@.len() == 0
    }

    fn new_buffer(capacity: usize) -> (r: Self) {
        String::new()
    }

    fn clear(&mut self) {
        *self = String::new();
    }
}

/// A pool of empty buffers. Buffers are lent out by `get_buffer` and come
/// back through `recycle`.
pub struct BufferCache<Buf: Buffer> {
    buffers: VecDeque<Buf>,
    default_capacity: usize,
}

/// A buffer lent out by a cache.
pub struct BufferWrapper<Buf: Buffer> {
    buffer: Buf,
}

impl<Buf: Buffer> BufferCache<Buf> {
    /// The buffers waiting in the pool, oldest first.
    pub closed spec fn pooled(&self) -> Seq<Buf> {
        self.buffers@
    }

    /// The capacity that new buffers are made with.
    pub closed spec fn capacity(&self) -> usize {
        self.default_capacity
    }

    /// Every buffer waiting in the pool is empty.
    pub open spec fn wf(&self) -> bool {
        forall|i: int| 0 <= i < self.pooled().len() ==> (#[trigger] self.pooled()[i]).is_cleared()
    }

    /// An empty pool whose new buffers get room for `default_capacity` items.
    pub fn new(default_capacity: usize) -> (r: Self)
        ensures
            r.wf(),
            r.pooled().len() == 0,
            r.capacity() == default_capacity,
    {
        BufferCache { buffers: VecDeque::with_capacity(128), default_capacity }
    }

    /// Lends the oldest pooled buffer, if the pool holds one.
    pub fn try_get_buffer(&mut self) -> (r: Option<BufferWrapper<Buf>>)
        requires
            old(self).wf(),
        ensures
            final(self).wf(),
            final(self).capacity() == old(self).capacity(),
            old(self).pooled().len() == 0 ==> r is None && final(self).pooled() == old(self).pooled(),
            old(self).pooled().len() > 0 ==> r is Some && r->0.view() == old(self).pooled()[0]
                && final(self).pooled() == old(self).pooled().drop_first(),
    {
        match self.buffers.pop_front() {
            Some(buffer) => Some(BufferWrapper { buffer }),
            None => None,
        }
    }

    /// Lends the oldest pooled buffer, or a new one when the pool is empty.
    /// Either way the buffer is empty.
    pub fn get_buffer(&mut self) -> (r: BufferWrapper<Buf>)
        requires
            old(self).wf(),
        ensures
            final(self).wf(),
            final(self).capacity() == old(self).capacity(),
            r.view().is_cleared(),
            old(self).pooled().len() > 0 ==> r.view() == old(self).pooled()[0]
                && final(self).pooled() == old(self).pooled().drop_first(),
            old(self).pooled().len() == 0 ==> final(self).pooled() == old(self).pooled(),
    {
        match self.try_get_buffer() {
            Some(w) => w,
            None => BufferWrapper { buffer: Buf::new_buffer(self.default_capacity) },
        }
    }

    /// Takes a lent buffer back: it is emptied and waits at the end of the pool.
    pub fn recycle(&mut self, wrapper: BufferWrapper<Buf>)
        requires
            old(self).wf(),
        ensures
            final(self).wf(),
            final(self).capacity() == old(self).capacity(),
            final(self).pooled().len() == old(self).pooled().len() + 1,
            final(self).pooled().drop_last() == old(self).pooled(),
    {
        let mut buffer = wrapper.into_inner();
        buffer.clear();
        self.buffers.push_back(buffer);
        proof {
            assert(self.pooled().drop_last() =~= old(self).pooled());
        }
    }
}

impl<Buf: Buffer> BufferWrapper<Buf> {
    /// The lent buffer.
    pub closed spec fn view(&self) -> Buf {
        self.buffer
    }

    /// Keeps the buffer for good: it will not go back to the pool.
    pub fn into_inner(self) -> (r: Buf)
        ensures
            r == self.view(),
    {
        self.buffer
    }

    pub fn buffer(&self) -> (r: &Buf)
        ensures
            *r == self.view(),
    {
        &self.buffer
    }

    pub fn buffer_mut(&mut self) -> (r: &mut Buf)
        ensures
            *r == old(self).view(),
            final(self).view() == *final(r),
    {
        &mut self.buffer
    }
}

} // verus!
