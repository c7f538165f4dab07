//! VWatch watches a VPS over SSH and edits the settings of the Palworld server on it.
//!
//! This library holds what VWatch knows and decides, proved against its contracts: which
//! commands are sent to the host and what their output means ([`shell`], [`report`],
//! [`procs`], [`pm2`]), the settings file ([`palworld`]) and the form for it
//! ([`catalog`], [`fields`]), the order in which the host is read ([`poll`]) and settings
//! are changed ([`apply`]), the state that the UI shows ([`worker`], [`model`]) and what
//! it makes of it ([`screen`], [`probe`]).
//!
//! What holds across them is stated on its own: that what the host prints is read as
//! printed ([`cutting`], [`readings`], [`tables`]), which commands it is asked to run
//! ([`arguments`], [`scripts`], [`requests`], [`safe_order`]), that the settings file keeps
//! what is not edited ([`round_trip`], [`settings`]), that what is shown is what was told
//! ([`displays`]), and what the worker keeps throughout ([`laws`], [`trees`]).
//!
//! Opening the session, running the commands and drawing the screens is the program's
//! part. It hands in what happened and does what the library says is next.
pub mod apply;
pub mod arguments;
pub mod catalog;
pub mod chars;
pub mod config;
pub mod cutting;
pub mod displays;
pub mod fields;
pub mod laws;
pub mod model;
pub mod numbers;
pub mod order;
pub mod palworld;
pub mod pm2;
pub mod poll;
pub mod probe;
pub mod procs;
pub mod readings;
pub mod report;
pub mod requests;
pub mod round_trip;
pub mod safe_order;
pub mod screen;
pub mod scripts;
pub mod settings;
pub mod shell;
pub mod tables;
pub mod trees;
pub mod worker;
