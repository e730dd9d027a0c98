//! Verified core of the AWS profile manager: the profile model, the
//! merge of AWS sources with the metadata store, the safety policy,
//! filtering, ordering, metadata updates and the plans that the
//! command layer carries out.
pub mod error;
pub mod text;
pub mod types;
pub mod order;
pub mod policy;
pub mod ini;
pub mod metadata;
pub mod config;
pub mod search;
pub mod env;
pub mod list;
pub mod update;
pub mod paths;
pub mod sso;
pub mod exec;
pub mod current;
pub mod regex_ops;
pub mod pin;
pub mod sync;
pub mod switch;
pub mod interaction;
pub mod search_view;
pub mod init;
pub mod list_view;
pub mod cli;
pub mod laws;
