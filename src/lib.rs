//! Organization repository scanning: pagination over a graph query API,
//! flattening of nested responses, classification of vulnerabilities and
//! collaborator permissions, and aggregation into generic tabular content.

pub mod collab;
pub mod content;
pub mod error;
pub mod labels;
pub mod options;
pub mod order;
pub mod paging;
pub mod query;
pub mod vulns;
