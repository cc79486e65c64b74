//! Client-side logic for the Strasbourg open-data parking API.

pub mod api;
pub mod client;
pub mod decode;
pub mod deserialize;
pub mod error;
pub mod json;
pub mod paginator;
pub mod paging;
pub mod runs;
