//! The web adapter: webhook intake and the pages of the dashboard.
pub mod audit;
pub mod dashboard;
pub mod dispatch;
pub mod github_webhook;
pub mod static_assets;
pub mod templates;
pub mod view;
