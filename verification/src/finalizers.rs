//! The finalizer by which the operator holds back the deletion of a service.

use crate::consts::FINALIZER_NAME;
use crate::objects::{Service, ServiceView};
use crate::text::{excluding, is_among, not_among};
use vstd::prelude::*;

verus! {

impl ServiceView {
    /// Its finalizers; none where there is no list of finalizers.
    pub open spec fn all_finalizers(self) -> Seq<Seq<char>> {
        match self.metadata.finalizers {
            Some(finalizers) => finalizers,
            None => Seq::empty(),
        }
    }

    /// Whether it carries the finalizer of this operator.
    pub open spec fn has_finalizer(self) -> bool {
        self.all_finalizers().contains(FINALIZER_NAME@)
    }

    /// Its finalizers, and that of this operator after them.
    pub open spec fn finalizers_with_ours(self) -> Seq<Seq<char>> {
        self.all_finalizers().push(FINALIZER_NAME@)
    }

    /// Its finalizers but for that of this operator.
    pub open spec fn finalizers_without_ours(self) -> Seq<Seq<char>> {
        excluding(self.all_finalizers(), seq![FINALIZER_NAME@])
    }
}

/// Whether the service carries the finalizer of this operator.
pub fn check(svc: &Service) -> (r: bool)
    ensures
        r == svc.deep_view().has_finalizer(),
{
    match &svc.metadata.finalizers {
        Some(finalizers) => is_among(FINALIZER_NAME, finalizers),
        None => false,
    }
}

/// The finalizers of the service once that of this operator is added.
pub fn with_ours(svc: &Service) -> (r: Vec<String>)
    ensures
        r.deep_view() == svc.deep_view().finalizers_with_ours(),
{
    let mut finalizers: Vec<String> = match &svc.metadata.finalizers {
        Some(finalizers) => finalizers.clone(),
        None => Vec::new(),
    };
    assert(finalizers.deep_view() =~= svc.deep_view().all_finalizers());
    finalizers.push(FINALIZER_NAME.to_owned());
    assert(finalizers.deep_view() =~= svc.deep_view().finalizers_with_ours());
    finalizers
}

/// The finalizers of the service once that of this operator is removed.
pub fn without_ours(svc: &Service) -> (r: Vec<String>)
    ensures
        r.deep_view() == svc.deep_view().finalizers_without_ours(),
{
    let mut ours: Vec<String> = Vec::new();
    ours.push(FINALIZER_NAME.to_owned());
    assert(ours.deep_view() =~= seq![FINALIZER_NAME@]);
    match &svc.metadata.finalizers {
        Some(finalizers) => not_among(finalizers, &ours),
        None => Vec::new(),
    }
}

} // verus!
