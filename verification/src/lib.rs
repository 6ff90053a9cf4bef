//! Endpoint data management: the verified core of EDMS.
pub mod text;
pub mod remove_url;
pub mod lock_manager;
pub mod store;
pub mod queries;
pub mod db;
pub mod membership;
pub mod views;
pub mod schema;
pub mod validate;
pub mod table_view;
pub mod audit;
pub mod zipops;
pub mod api;
pub mod markdown;
pub mod repo;
pub mod run_test;
pub mod callback;
pub mod dashboard;
