pub mod text;
pub mod seqs;
pub mod assoc;
pub mod command;
pub mod policy;
pub mod shell;
pub mod linux;
pub mod openwrt;
pub mod gateway;
pub mod outside;
pub mod gw_executor;
pub mod control_plane;
pub mod state;
pub mod platform;
pub mod executor;
pub mod rollback;
pub mod report;
pub mod reporter;
pub mod planner;
pub mod reconciler;
pub mod credential;
pub mod runner;
pub mod web_credential;
pub mod web_policy;
pub mod policy_store;
pub mod node_views;
pub mod pair;
pub mod location;
