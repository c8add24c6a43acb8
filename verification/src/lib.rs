//! Tawny's library: the models, rules and decisions behind a local-first
//! YouTube client, each stated as a contract and proved.

pub mod text;
pub mod dates;
pub mod sorting;
pub mod video;
pub mod settings;
pub mod playlist;
pub mod sponsor;
pub mod count;
pub mod channel;
pub mod account;
pub mod auth;
pub mod playback;
pub mod library;
pub mod config;
pub mod data_change;
pub mod explore;
pub mod screens;
pub mod shuffle;
pub mod theme;
pub mod sponsor_query;
pub mod subscriptions;
pub mod feed;
pub mod player_state;
