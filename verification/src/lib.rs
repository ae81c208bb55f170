pub mod assoc;
pub mod attributes;
pub mod converting;
pub mod decimal;
pub mod encoder;
pub mod format_number;
pub mod job;
pub mod laws;
pub mod media;
pub mod probe;
pub mod process;
pub mod progress_view;
pub mod settings;
pub mod slug;
pub mod text;
pub mod youtube;
