//! Provisioning and teardown logic for a locally run scraping service.

pub mod builder;
pub mod lifecycle;
pub mod model;
pub mod registrar;
pub mod store;
pub mod teardown;
pub mod text;
