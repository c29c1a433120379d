pub mod source;
pub mod video_generator;
pub mod destination;
pub mod mixer;
pub mod destination_plan;
pub mod mixer_plan;
pub mod mixer_pads;
pub mod source_plan;
pub mod live_steps;
