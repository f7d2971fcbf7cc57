//! Verified core of a menu-bar explorer for Knative services: the rules that turn
//! Kubernetes objects into service summaries, status flags, URLs and log text.
pub mod error;
pub mod events;
pub mod text;
pub mod k8s;
pub mod types;
pub mod logic;
pub mod logs;
pub mod watcher;
pub mod laws;
