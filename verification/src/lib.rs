//! Configuration front end for a base-update utility: command-line flag
//! records with negation-pair resolution, and a tolerant loader for the
//! line-oriented `key=value` configuration file with architecture and
//! branch templating.  Every function is specified and verified; the I/O
//! around the library (argument intake, reading the file) lives outside it.

pub mod cli;
pub mod config;
pub mod text;
