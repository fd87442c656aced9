pub mod home_controller;

pub use home_controller::HomeController;
