pub mod cors_config;
pub mod get_client_ip_config;
pub mod hyper_config;
pub mod jwt_auth_config;
pub mod rate_limit_config;
pub mod request_timeout_config;
pub mod startup_app_config;
pub mod static_file_config;

pub use cors_config::CorsConfiguration;
pub use get_client_ip_config::GetClientIpConfiguration;
pub use hyper_config::HyperConfig;
pub use jwt_auth_config::JwtAuthConfiguration;
pub use rate_limit_config::RateLimitConfiguration;
pub use request_timeout_config::RequestTimeoutConfiguration;
pub use startup_app_config::StartupAppConfiguration;
pub use static_file_config::StaticFileConfiguration;
