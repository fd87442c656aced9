pub mod dependcy_injection;
pub mod extensions;
pub mod configuration;
pub mod http_context;
pub mod controller;
pub mod controllers;
pub mod application;
pub mod hosted_service;
pub mod middleware;
