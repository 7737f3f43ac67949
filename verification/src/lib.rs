#![allow(unused_imports)]

pub mod addr;
pub mod adapter;
pub mod admin;
pub mod carried;
pub mod cli;
pub mod client;
pub mod connect;
pub mod display;
pub mod gui;
pub mod logs;
pub mod monitor;
pub mod notation;
pub mod platform;
pub mod pool;
pub mod proxy;
pub mod relay;
pub mod round_trip;
pub mod single_instance;
pub mod socks;
pub mod spelling;
pub mod text;
pub mod texts;
pub mod theme;
pub mod tray;
pub mod udp;
pub mod update;
pub mod view;
pub mod vpn;
pub mod wire;
pub mod wording;
