//! The list type that carries remote descriptors to a transfer call.
use smallvec::SmallVec;
use vstd::prelude::*;

verus! {

/// Remote descriptors `(address, length)` for one transfer call. Up to three
/// of them are held without a heap allocation.
#[verifier::external_body]
pub struct RemoteIoVectors {
    vectors: SmallVec<[(u64, u64); 3]>,
}

/// The descriptors that a list holds, in order.
pub uninterp spec fn remote_io_vectors(v: RemoteIoVectors) -> Seq<(u64, u64)>;

impl RemoteIoVectors {
    /// Relies on `SmallVec::new`: an empty vector, which allocates nothing.
    #[verifier::external_body]
    pub(crate) fn new() -> (r: RemoteIoVectors)
        ensures
            remote_io_vectors(r) == Seq::<(u64, u64)>::empty(),
    {
        RemoteIoVectors { vectors: SmallVec::new() }
    }

    /// Relies on `SmallVec::try_reserve_exact`: the allocation may fail, and
    /// the items stay as they are either way.
    #[verifier::external_body]
    pub(crate) fn try_reserve_exact(&mut self, additional: usize) -> (r: bool)
        ensures
            remote_io_vectors(*final(self)) == remote_io_vectors(*old(self)),
    {
        self.vectors.try_reserve_exact(additional).is_ok()
    }

    /// Relies on `SmallVec::push`: appends the item. It panics only where the
    /// vector is full and the grown capacity (the next power of two, of
    /// 16-byte items) cannot be laid out, which a length this far below
    /// `isize::MAX` rules out; a failed allocation aborts.
    #[verifier::external_body]
    pub(crate) fn push(&mut self, item: (u64, u64))
        requires
            (remote_io_vectors(*old(self)).len() + 1) * 32 <= isize::MAX,
        ensures
            remote_io_vectors(*final(self)) == remote_io_vectors(*old(self)).push(item),
    {
        self.vectors.push(item)
    }

    /// Relies on `SmallVec::as_slice`: the items, in order.
    #[verifier::external_body]
    fn items(&self) -> (r: &[(u64, u64)])
        ensures
            r@ == remote_io_vectors(*self),
    {
        self.vectors.as_slice()
    }

    /// The descriptors, in order.
    pub fn as_slice(&self) -> (r: &[(u64, u64)])
        ensures
            r@ == remote_io_vectors(*self),
    {
        self.items()
    }
}

} // verus!
