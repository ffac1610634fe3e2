//! Resources that must be released, and a guard that owns one.
use vstd::prelude::*;

verus! {

/// A resource that must be released explicitly.
pub struct Resource {
    id: usize,
    allocated: bool,
}

impl Resource {
    pub closed spec fn id_of(&self) -> usize {
        self.id
    }

    /// The resource is still held.
    pub closed spec fn is_allocated(&self) -> bool {
        self.allocated
    }

    /// Allocates resource `id`.
    pub fn allocate(id: usize) -> (res: Self)
        ensures
            res.id_of() == id,
            res.is_allocated(),
    {
        Resource { id, allocated: true }
    }

    /// Uses the resource, which must still be held.
    pub fn use_resource(&mut self)
        requires
            old(self).is_allocated(),
        ensures
            *final(self) == *old(self),
    {
    }

    /// Releases the resource, using it up.
    pub fn release(self) {
    }
}

/// A guard that owns a resource.
pub struct ResourceGuard {
    resource: Resource,
}

impl ResourceGuard {
    /// The resource the guard owns.
    pub closed spec fn held(&self) -> Resource {
        self.resource
    }

    /// A guard over a newly allocated resource `id`.
    pub fn new(id: usize) -> (res: Self)
        ensures
            res.held().id_of() == id,
            res.held().is_allocated(),
    {
        ResourceGuard { resource: Resource::allocate(id) }
    }

    /// The guarded resource, for use.
    pub fn access(&mut self) -> (res: &mut Resource)
        ensures
            *res == old(self).held(),
            final(self).held() == *final(res),
    {
        &mut self.resource
    }
}

} // verus!
