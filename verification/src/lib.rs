//! Verified core of the Nexus desktop view: text utilities, localisation,
//! search, review-patch parsing, the model picker, media paragraphs, the
//! player page, appearance rules, window lifecycle decisions, web-view
//! navigation rules, issue pagers and actions, harness cards and the sidebar.

pub mod bytes;
pub mod catalog;
pub mod components;
pub mod fonts;
pub mod i18n;
pub mod issues;
pub mod lifecycle;
pub mod media;
pub mod picker;
pub mod player;
pub mod review;
pub mod search;
pub mod settings;
pub mod sidebar;
pub mod text;
pub mod theme;
pub mod webview;
