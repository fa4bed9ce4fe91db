pub mod app_settings;
pub mod auth;
pub mod routes;
pub mod s3_types;
pub mod storage;
pub mod telemetry;
pub mod text;
