pub mod blocks;
pub mod cursor;
pub mod error;
pub mod listing;
pub mod single;
pub mod text;
pub mod time;
pub mod vad_client;
pub mod vad_file;
pub mod vad_params;
