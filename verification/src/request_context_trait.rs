use vstd::prelude::*;
use std::sync::Arc;
use crate::application_context_trait::ApplicationContextTrait;

verus! {

/// The scratch state of one request: made fresh for each request that comes
/// in, from the shared application context, and dropped with the response.
///
/// `creates` is the type's own account of which contexts `create` may make
/// from which application context. A type that gives no account may make
/// any.
pub trait RequestContextTrait<ApplicationContextType: ApplicationContextTrait>: Sized {
    /// Whether `created` is a context that `create` may make from
    /// `app_context`.
    open spec fn creates(app_context: Arc<ApplicationContextType>, created: Self) -> bool {
        true
    }

    fn create(app_context: Arc<ApplicationContextType>) -> (created: Self)
        ensures
            Self::creates(app_context, created),
    ;
}

} // verus!
