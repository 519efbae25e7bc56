//! The ways in which a reconciliation can end without success.

use vstd::prelude::*;

verus! {

/// Why a reconciliation stopped.
#[derive(Debug)]
pub enum RobotLBError {
    /// The service is not one that this operator serves.
    SkipService,
    /// The service names no node selector, and nodes are not found dynamically.
    ServiceWithoutSelector,
    /// The node selector holds this rule, which is not a rule.
    InvalidNodeFilter(String),
    /// A call to the cluster or to the cloud failed, with this message.
    CallFailed(String),
}

/// What a [`RobotLBError`] says.
pub enum ErrorView {
    SkipService,
    ServiceWithoutSelector,
    InvalidNodeFilter(Seq<char>),
    CallFailed(Seq<char>),
}

impl DeepView for RobotLBError {
    type V = ErrorView;

    open spec fn deep_view(&self) -> ErrorView {
        match self {
            RobotLBError::SkipService => ErrorView::SkipService,
            RobotLBError::ServiceWithoutSelector => ErrorView::ServiceWithoutSelector,
            RobotLBError::InvalidNodeFilter(rule) => ErrorView::InvalidNodeFilter(rule@),
            RobotLBError::CallFailed(message) => ErrorView::CallFailed(message@),
        }
    }
}

} // verus!
