//! A small content-management backend core: an in-memory relational store for
//! pages, modules, module categories and users, a composer that shapes a page
//! and its modules into a render-ready view model, token-based authentication
//! checks, and the JSON response envelope used by the REST layer.

pub mod auth;
pub mod composer;
pub mod config_models;
pub mod decimal;
pub mod errors;
pub mod helpers;
pub mod ids;
pub mod middleware;
pub mod module_models;
pub mod page_models;
pub mod response;
pub mod store;
pub mod user_models;
