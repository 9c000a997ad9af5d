//! The logic of a registrar for on-chain identities.
//!
//! A registrar judges identities: it is asked to, through a watcher of the
//! chain, and sends each account that the identity claims a challenge. Once
//! all of them are met, the judgement is handed to the watcher.
//!
//! This library holds what the registrar decides and computes. What reads,
//! stores or sends is left to the caller: where a decision needs such work,
//! the library says what is to be done next and goes on with what came of it.
//!
//! * [`identity`], [`challenge`] and [`judgement`] are what is claimed, how it
//!   is verified and how far that has come.
//! * [`message`] and [`notification`] are what users send and what they are
//!   told.
//! * [`display_name`] keeps display names apart.
//! * [`watcher`] is the exchange with the watcher; [`watcher_run`] states what
//!   holds of it as a whole.
//! * [`listener`] is the work of a message adapter, and [`matrix`] that of the
//!   Matrix bot.
//! * [`command`] and [`admin`] are what admins ask for and are answered.
//! * [`config`] are the settings.
//! * [`text`], [`hex_text`], [`time`] and [`database`] are what the others
//!   stand on.
pub mod admin;
pub mod challenge;
pub mod command;
pub mod config;
pub mod database;
pub mod display_name;
pub mod hex_text;
pub mod identity;
pub mod judgement;
pub mod listener;
pub mod matrix;
pub mod message;
pub mod notification;
pub mod text;
pub mod time;
pub mod watcher;
pub mod watcher_run;
