//! The verified core of Codeck, a keyboard-first dashboard for background
//! Codex sessions.

pub mod app;
pub mod assoc;
pub mod cells;
pub mod clipboard;
pub mod composer;
pub mod composer_laws;
pub mod composer_view;
pub mod connection;
pub mod deck;
pub mod desk;
pub mod drafts;
pub mod edit_laws;
pub mod events;
pub mod input;
pub mod item_laws;
pub mod json;
pub mod key_laws;
pub mod keys;
pub mod labels;
pub mod laws;
pub mod layout;
pub mod lifecycle;
pub mod links;
pub mod list_laws;
pub mod markdown;
pub mod markdown_laws;
pub mod menus;
pub mod model;
pub mod notifications;
pub mod order;
pub mod params;
pub mod paths;
pub mod preview_laws;
pub mod prompt_laws;
pub mod protocol;
pub mod render;
pub mod reply_laws;
pub mod request_laws;
pub mod requests;
pub mod responses;
pub mod rows;
pub mod rpc;
pub mod screen;
pub mod screen_laws;
pub mod segmentation;
pub mod selection;
pub mod skills;
pub mod slots;
pub mod state;
pub mod style;
pub mod styled;
pub mod submission;
pub mod surface;
pub mod table_laws;
pub mod tables;
pub mod terminal_palette;
pub mod text;
pub mod thread_laws;
pub mod transcript;
pub mod transcript_laws;
pub mod view_laws;
pub mod views;
pub mod wrap;
