pub mod action;
pub mod admin;
pub mod app;
pub mod detail;
pub mod event;
pub mod layout;
pub mod outcome;
pub mod text;
pub mod view;
pub mod textmap;
