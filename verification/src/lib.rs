//! A small guestbook: visitors leave pages, the library decides what is
//! stored, what is shown and how notifications read.
pub mod config;
pub mod model;
pub mod notifications;
pub mod outside;
pub mod review;
pub mod storage;
pub mod text;
pub mod web;
