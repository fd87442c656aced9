pub mod action_result;
pub mod app_controller;
pub mod binding;
pub mod dispatch;
pub mod preset_response;
pub mod routing;

pub use action_result::ActionResult;
pub use app_controller::ControllerRegistry;
pub use binding::{FromBody, FromForm, FromQuery};
pub use preset_response::PresetResponse;
pub use routing::{ActionRoute, Routing, WithHttpContext};
