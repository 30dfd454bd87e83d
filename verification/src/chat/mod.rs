//! Chat channels.
pub mod backends;
pub mod composer;
pub mod html_laws;
pub mod pace_laws;
pub mod relay_laws;
pub mod tg_html;
pub mod turn_relay;
pub mod webhook;
