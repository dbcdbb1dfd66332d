//! Reminds the user to start or correct a time-tracking timer when files of a
//! tracked project change.
//!
//! The library holds the rules: which project owns a changed file
//! ([`registry`], over the path model of [`paths`]), which changes are let
//! through the cooldown window ([`debounce`]), how the running timer relates
//! to a project ([`timer`]), which notification that calls for
//! ([`notification`]), and how these follow one another in the watch loop
//! ([`watch`]). It also lays out the weekly report ([`report`], [`calendar`])
//! and finds the user's credentials ([`config`]). Reading files, watching
//! directories, asking the time-tracking service and showing notifications
//! are left to the program around it.

pub mod calendar;
pub mod config;
pub mod debounce;
pub mod errors;
pub mod notification;
pub mod path_laws;
pub mod paths;
pub mod registry;
pub mod report;
pub mod text;
pub mod timer;
pub mod watch;
