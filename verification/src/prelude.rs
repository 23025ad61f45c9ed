//! Reexports commonly used objects.

pub use crate::analysis::AiAnalysis;
pub use crate::domain::Ai;
pub use crate::domain::Domain;
pub use crate::node::Node;
pub use crate::settings::AiSettings;
pub use crate::utility::Utility;
