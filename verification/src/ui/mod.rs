pub mod broker_info;
pub mod broker_list;
pub mod connection;
pub mod formatter;
pub mod controllers;
pub mod tabs;
