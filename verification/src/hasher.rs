//! A pass-through hasher for data that is already hashed: it takes exactly one `u64` and gives
//! it back as the hash.
use vstd::prelude::*;

verus! {

/// A builder for creating [`NoopU64Hasher`].
pub struct NoopU64Builder;

impl NoopU64Builder {
    /// A hasher that has not been given anything yet.
    pub fn build_hasher(&self) -> (r: NoopU64Hasher)
        ensures
            r.hashed() is None,
    {
        NoopU64Hasher { value: None }
    }
}

/// A hasher which passes through exactly one `u64`.
pub struct NoopU64Hasher {
    value: Option<u64>,
}

impl NoopU64Hasher {
    /// The `u64` given to the hasher, if any.
    pub closed spec fn hashed(&self) -> Option<u64> {
        self.value
    }

    /// The hash: the `u64` that was given. A `u64` must have been given.
    pub fn finish(&self) -> (r: u64)
        requires
            self.hashed() is Some,
        ensures
            r == self.hashed()->0,
    {
        match self.value {
            Some(v) => v,
            None => vstd::pervasive::unreached(),
        }
    }

    /// Takes the `u64` to pass through. No `u64` must have been given before.
    pub fn write_u64(&mut self, i: u64)
        requires
            old(self).hashed() is None,
        ensures
            final(self).hashed() == Some(i),
    {
        self.value = Some(i);
    }
}

} // verus!
