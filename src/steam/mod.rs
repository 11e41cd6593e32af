//! The Steam Guard variant and the data exchanged with Steam's services.
pub mod api_response;
pub mod mafile;
pub mod mobile_web_auth;
pub mod steam_api;
pub mod steam_key;
pub mod token;

pub use mafile::MaFile;
pub use steam_key::SteamKey;
