//! The decisions of an operator that gives Kubernetes services of the type
//! `LoadBalancer` a load balancer in the Hetzner Cloud.
//!
//! [`reconcile`] takes a service from step to step. Each step names a call to
//! the cluster or to the cloud, which the operator makes. [`runs`] puts the
//! steps together to whole reconciliations and states what holds of them;
//! [`laws`] states what holds of the parts. [`promises`] and [`steps`] tell runs
//! and steps in the fields of the objects and answers, [`fields`] and [`words`] do
//! so for single decisions and texts, and [`shown`] for the views.

pub mod consts;
pub mod context;
pub mod error;
pub mod fields;
pub mod finalizers;
pub mod label_filter;
pub mod laws;
pub mod lb;
pub mod nodes;
pub mod objects;
pub mod promises;
pub mod reconcile;
pub mod runs;
pub mod services;
pub mod shown;
pub mod status;
pub mod steps;
pub mod string_map;
pub mod text;
pub mod words;
