pub mod middleware_plan;

pub use middleware_plan::{middleware_plan, ImplItemShape, MiddlewareError, MiddlewarePlan};
