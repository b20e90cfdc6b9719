//! Worklight: tracking of user-started commands and of agent runtimes.

pub mod agent;
pub mod answers;
pub mod cli;
pub mod collection;
pub mod command_line;
pub mod conduct;
pub mod effects;
pub mod error;
pub mod focus;
pub mod inquiry;
pub mod keys;
pub mod lists;
pub mod navigation;
pub mod observation;
pub mod orchestrator;
pub mod order;
pub mod panel;
pub mod process;
pub mod query;
pub mod quotation;
pub mod records;
pub mod refresh;
pub mod rejections;
pub mod report;
pub mod rows;
pub mod schema;
pub mod screen;
pub mod session;
pub mod storage;
pub mod synchronization;
pub mod tables;
pub mod text;
pub mod time;
pub mod transaction;
pub mod upkeep;
pub mod wording;
pub mod worker;
