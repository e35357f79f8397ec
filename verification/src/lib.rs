pub mod configuration;
pub mod text;
pub mod table;
pub mod layout;
pub mod icon;
pub mod images;
pub mod notification;
pub mod manager;
pub mod wayland;
pub mod daemon;
pub mod png;
pub mod tester;
pub mod render;
