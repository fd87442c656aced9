pub mod cycle_check;
pub mod edge;
pub mod flags;
pub mod inject_plan;
pub mod inject_types;

pub use edge::DependencyEdge;
pub use flags::HttpInjectType;
pub use inject_types::{Cfg, CfgRequire, DependcyInjectableController, Serv};
