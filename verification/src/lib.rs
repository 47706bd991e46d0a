//! The rules behind a downloader of release assets from GitHub, Gitea and GitLab:
//! which release and which assets are meant, which requests are made for them, what
//! is cached, retried or skipped.

pub mod bulk;
pub mod cache;
pub mod download;
pub mod fetch;
pub mod listing;
pub mod models;
pub mod network;
pub mod notation;
pub mod pattern;
pub mod repository;
pub mod request;
pub mod retry;
pub mod selection;
pub mod text;
pub mod transfer;
