//! Identity-proxying message pipeline for a multi-persona chat bot.
//!
//! A single platform account (the "owner" of a *system*) can act as several
//! named personas (*members*). The library detects which member an incoming
//! message belongs to (trigger matching), strips the matched trigger from the
//! content, plans the re-post of the message under the member's identity, and
//! keeps an audit log so that follow-up actions (edit, delete, reproxy, info)
//! can be authorized and applied to the correct member.
//!
//! All state lives in [`db::Db`], an in-memory model of the relational store;
//! the platform API calls themselves (post, delete, history fetch) are the
//! caller's job: the library decides, the caller performs.

pub mod alias;
pub mod db;
pub mod events;
pub mod form;
pub mod interactions;
pub mod member;
pub mod message;
pub mod oauth;
pub mod ops;
pub mod system;
pub mod text;
pub mod trigger;
pub mod trust;
pub mod user;
