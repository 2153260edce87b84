//! Indexing and query core of a desktop file-search utility: the corpus and its
//! filename index, the matching rules, the directive grammar, the NTFS node
//! graph with its change journal, and the controller that ties them together.

pub mod checkpoint;
pub mod commands;
pub mod config;
pub mod controller;
pub mod corpus;
pub mod delta_laws;
pub mod entries;
pub mod enumeration;
pub mod event_loop;
pub mod events;
pub mod intents;
pub mod item;
pub mod journal;
pub mod matching;
pub mod messages;
pub mod name_index;
pub mod ntfs;
pub mod numbers;
pub mod ranking;
pub mod recent;
pub mod request;
pub mod scope;
pub mod search_worker;
pub mod shell;
pub mod snapshot;
pub mod snapshot_laws;
pub mod text;
pub mod usn;
pub mod watch;
