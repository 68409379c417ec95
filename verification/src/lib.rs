//! The decision logic of a radargram catalog server.
//!
//! A server built on this crate serves processed ground-penetrating radar
//! files from a project directory and from read-only archives beside it. What
//! is here is everything the server decides: which files make up the catalog,
//! what each one is called and which group it is in, who may see or change
//! what, and what an upload or a removal does step by step. Talking to the
//! network, the disk and the NetCDF library is the caller's side.

pub mod access_laws;
pub mod answer_laws;
pub mod api_error;
pub mod app_state;
pub mod audit;
pub mod auth;
pub mod catalog;
pub mod catalog_laws;
pub mod change_laws;
pub mod derived;
pub mod derived_laws;
pub mod derived_routes;
pub mod derived_values;
pub mod discovery;
pub mod download_laws;
pub mod edit_laws;
pub mod elevation;
pub mod history_laws;
pub mod identity;
pub mod launch;
pub mod ledger;
pub mod lifecycle;
pub mod listing;
pub mod merge_scope;
pub mod naming_laws;
pub mod overrides;
pub mod paths;
pub mod properties;
pub mod removal;
pub mod report_laws;
pub mod resolution;
pub mod roots;
pub mod routing;
pub mod rows;
pub mod search_laws;
pub mod selection;
pub mod served_laws;
pub mod sizes;
pub mod sorting;
pub mod text;
pub mod text_laws;
pub mod text_map;
pub mod upload;
