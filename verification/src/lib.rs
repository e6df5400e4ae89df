//! Typed client library for the UjumbeSMS HTTP gateway.
//!
//! The library models the gateway's request and response records, renders and
//! parses their JSON wire form, and prepares the authenticated HTTP requests
//! that a transport layer then carries out.

pub mod client;
pub mod config;
pub mod endpoint;
pub mod errors;
pub mod json;
pub mod models;
pub mod strutil;
pub mod wire;

pub use config::UjumbeSmsConfig;
pub use endpoint::ApiEndpoint;
pub use errors::UjumbeSmsError;
pub use models::{
    BalanceApiResponse, BalanceMetaInfo, DateTime, MessageBag, MessageHistoryApiResponse,
    MessageHistoryMetaInfo, MessageRequest, MessagingApiResponse, MessagingMetaInfo, StatusInfo,
};
