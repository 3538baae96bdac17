//! A declarative automation-pipeline runner.
//!
//! A configuration lists named steps; each step's parameters are text
//! templates that may reference the process environment (`{env.KEY}`) or the
//! output of the previous step (`{input.KEY}`). The continuation engine
//! resolves each step's templates, dispatches on the step kind, and threads
//! output maps forward, fanning out when a feed step yields several entries.

pub mod strutil;

pub mod dict;

pub mod engine;

pub mod parser;

pub mod catalog;

pub mod feed;

pub mod atom;

pub mod command;

pub mod decompress;

pub mod download;

pub mod echo;

pub mod gist;

pub mod http;

pub mod read;

pub mod rss;

pub mod save;

pub mod wechat;
