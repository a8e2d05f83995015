//! Resilient, authenticated access to a paginated remote API: request
//! classification and backoff, token refresh, the authorization flow, the
//! one-shot callback endpoint and offset pagination, as verified logic.

pub mod albums;
pub mod authentication;
pub mod client_config;
pub mod pagination;
pub mod playlist;
pub mod redirect_uri;
pub mod refresh;
pub mod retry;
pub mod text;
