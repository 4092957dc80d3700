use vstd::prelude::*;

verus! {

/// Marker for the store's `bundle_type` enumeration.
pub struct BundleType;

/// Marker for the store's `link_type` enumeration.
pub struct LinkType;

/// Marker for the store's `role_type` enumeration.
pub struct RoleType;

} // verus!
