pub mod auth;
pub mod bluez;
pub mod body;
pub mod cards;
pub mod claims;
pub mod display;
pub mod escape;
pub mod flattening;
pub mod fprintd;
pub mod greeter;
pub mod history;
pub mod host;
pub mod icon;
pub mod input;
pub mod instance;
pub mod keys;
pub mod launcher;
pub mod layout;
pub mod llm;
pub mod lock;
pub mod logind;
pub mod markdown;
pub mod markup;
pub mod matcher;
pub mod moment;
pub mod names;
pub mod network;
pub mod networkmanager;
pub mod niri;
pub mod notification;
pub mod notifications;
pub mod number;
pub mod osd;
pub mod pam;
pub mod picker;
pub mod polkit;
pub mod position;
pub mod power;
pub mod ranking;
pub mod records;
pub mod rope;
pub mod scrollbar;
pub mod submenu;
pub mod systemd;
pub mod systray;
pub mod text;
pub mod utf8;
pub mod watcher;
pub mod wifi;
