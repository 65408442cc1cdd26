//! Conversion of proxy subscription links into Surge proxy lists and Xray configurations.
pub mod text;
pub mod link;
pub mod vless;
pub mod hysteria2;
pub mod config;
pub mod xray;
pub mod surge;
pub mod subscription;
pub mod dedup;
