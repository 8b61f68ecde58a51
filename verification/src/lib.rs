//! A verified in-memory todo-item service core.
//!
//! The library owns the item store (ids mapped to titles, with a monotonic
//! id counter), the error taxonomy and its mapping to HTTP statuses, the
//! request handlers' decision logic, JSON response assembly, and log-line
//! formatting. The HTTP transport around it lives outside the library.

pub mod error;
pub mod handlers;
pub mod items;
pub mod json;
pub mod laws;
pub mod logger;
pub mod model;
pub mod numbers;
