//! Verified core of the COSMIC greeter daemon: which users the greeter shows, and
//! what it shows of them.
//!
//! Everything that talks to the system, to the accounts service or to the user's
//! settings is left to the caller. Where the daemon has to decide something in
//! between, the library offers a value that says what to do next (`request`) and
//! takes what came of it (`step`), until nothing is left to do (`finish`).

pub mod config_load;
pub mod file_dialog;
pub mod list_dialog;
pub mod load_dialog;
pub mod load_pair;
pub mod login_defs;
pub mod outputs;
pub mod passwd;
pub mod path;
pub mod path_map;
pub mod run_as_user;
pub mod switch_dialog;
pub mod text;
pub mod user_data;
pub mod user_filter;
pub mod user_list;
pub mod user_map;
pub mod wallpaper_load;

pub use config_load::{ConfigLoad, ConfigRead, LoadReply, LoadRequest};
pub use passwd::Passwd;
pub use path_map::PathMap;
pub use run_as_user::{IdentitySwitch, SwitchError, SwitchReply, SwitchRequest};
pub use user_data::{BgSource, BgState, Desktop, UserData};
pub use user_filter::UserFilter;
pub use user_list::{ListReply, ListRequest, UserListing};
pub use wallpaper_load::WallpaperLoad;
