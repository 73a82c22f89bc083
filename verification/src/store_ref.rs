//! The partition store of a session.
use datafusion::prelude::SessionConfig;
use std::sync::Arc;
use vstd::prelude::*;

verus! {

/// `datafusion::prelude::SessionConfig`: the settings of a session, with extensions
/// found by their type.
#[verifier::external_type_specification]
#[verifier::external_body]
pub struct ExSessionConfig(datafusion::prelude::SessionConfig);

/// A partition store as an extension of a session. `P` is the interface that the
/// stores are used through.
pub struct PartitionStoreRef<P: ?Sized>(pub Arc<P>);

impl<P: ?Sized> Clone for PartitionStoreRef<P> {
    /// A second reference to the same store.
    fn clone(&self) -> (r: Self)
        ensures
            r == *self,
    {
        PartitionStoreRef(self.0.clone())
    }
}

/// `SessionConfig::get_extension`: the extension of type `T` that the session was
/// given last, if it was given one. Which one that is differs from type to type, so
/// nothing is claimed of it here.
pub assume_specification<T>[ SessionConfig::get_extension::<T> ](
    config: &SessionConfig,
) -> (r: Option<Arc<T>>) where T: Send + Sync + 'static
;

impl<P: ?Sized> PartitionStoreRef<P> {
    /// The store that an extension refers to.
    pub open spec fn stored(extension: Option<Arc<PartitionStoreRef<P>>>) -> Option<Arc<P>> {
        match extension {
            Some(store_ref) => Some(store_ref.0),
            None => None,
        }
    }

    /// The store that an extension refers to.
    pub fn store(extension: Option<Arc<PartitionStoreRef<P>>>) -> (r: Option<Arc<P>>)
        ensures
            r == Self::stored(extension),
    {
        match extension {
            Some(store_ref) => Some(store_ref.0.clone()),
            None => None,
        }
    }
}

/// The partition store that the session was given, `None` if it was given none: the
/// store of the [`PartitionStoreRef`] that `SessionConfig::get_extension` finds in
/// `session_config`.
pub fn get_partition_store<P: ?Sized + Send + Sync + 'static>(session_config: &SessionConfig) -> (r:
    Option<Arc<P>>)
    ensures
        exists|extension: Option<Arc<PartitionStoreRef<P>>>|
            {
                &&& #[trigger] call_ensures(
                    SessionConfig::get_extension::<PartitionStoreRef<P>>,
                    (session_config,),
                    extension,
                )
                &&& r == PartitionStoreRef::stored(extension)
            },
{
    PartitionStoreRef::store(session_config.get_extension::<PartitionStoreRef<P>>())
}

} // verus!
