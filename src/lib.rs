//! Completion of Kubernetes-style structural schemas.
//!
//! `structural::StructuralSchemaVisitor` makes a JSON Schema document
//! structural: it restricts the primary node's `metadata` property, then
//! completes every node bottom-up, folding the type, nullable marker, `items`
//! and `properties` of each `allOf`, `anyOf`, `oneOf` and `not` branch into
//! the node that owns it. Each step is proved against the model in `model`,
//! `merge_spec` and `complete_spec`; the `laws*` modules prove properties of
//! the whole pass. The remaining modules hold small value types of a
//! messaging client and a service's shutdown stages.
pub mod complete;
pub mod complete_spec;
pub mod consumer;
pub mod defaults;
pub mod duration;
pub mod entries;
pub mod error;
pub mod ext;
pub mod laws;
pub mod laws_nullable;
pub mod laws_single;
pub mod laws_type;
pub mod merge;
pub mod merge_spec;
pub mod model;
pub mod result_code;
pub mod schema;
pub mod shutdown_state;
pub mod structural;
pub mod visit;
pub mod wf;
