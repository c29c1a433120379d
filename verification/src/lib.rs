pub mod messages;
pub mod protocol;
pub mod table;
pub mod text;
pub mod strset;
pub mod value;
pub mod pipeline;
pub mod control;
pub mod schedule;
pub mod nodes;
pub mod node_manager;
pub mod runtime;
pub mod sender;
pub mod live_media;
pub mod frames;
