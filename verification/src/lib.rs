//! A downloader for a post archive site: it signs in, lists a creator's posts,
//! and downloads a post's files into a folder of their own, beside a page that
//! shows the post. Downloads wait in a queue served by one worker; an interrupted
//! download resumes where it stopped, failures are retried, and a download is
//! given up after a run of failures that made no progress.
//!
//! This crate holds the decisions and the text that the program produces, each
//! function with a specification proved by Verus; the requests, the files and
//! the waiting are left to the caller.

pub mod api;
pub mod commands;
pub mod downloader;
pub mod hashing;
pub mod html_generator;
pub mod page_template;
pub mod paths;
pub mod settings;
pub mod text;
