use vstd::prelude::*;

pub mod catalog;
pub mod clock;
pub mod detail;
pub mod dev_install;
pub mod devtools;
pub mod discover;
pub mod game_dir;
pub mod init;
pub mod install;
pub mod loaders;
pub mod manifest;
pub mod map;
pub mod messages;
pub mod mock;
pub mod mods_list;
pub mod packaging;
pub mod path_list;
pub mod registry;
pub mod state;
pub mod std_ext;
pub mod text;
pub mod updater;
pub mod versioning;
pub mod worker;
