//! Use-cases: the verified decisions behind every application service, over
//! the plain values the storage ports hand back.
pub mod errors;
pub mod model;
pub mod posting_allowed;
pub mod vote_value;
pub mod voting_window_days;
pub mod member_metrics;
pub mod metrics_service;
pub mod ranking;
pub mod feed_item;
pub mod listing;
pub mod feed_service;
pub mod profile_service;
pub mod text;
pub mod moderation;
pub mod governance;
pub mod services;
pub mod writes;
pub mod accounts;
pub mod enfranchise_outcome;
pub mod membership_service;
pub mod blocking_service;
pub mod founding_service;
pub mod sensitive;
pub mod invites;
pub mod search_scope;
pub mod search_results;
pub mod post_matches;
pub mod search_service;
pub mod content_service;
pub mod service_set;
