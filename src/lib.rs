//! Bookkeeping for an audio engine's sound banks and events: which banks are
//! loaded, how short event names resolve to full paths, the order of engine
//! calls that build or play an event instance, and what each frame pushes to
//! the engine. The engine calls themselves are made by the host; this crate
//! decides what to call and what state follows from each result.

pub mod event;
pub mod naming;
pub mod playback;
pub mod resource;
pub mod status;
pub mod system;
pub mod table;
pub mod update_system;

pub use event::{InstanceOp, InstanceState, StopMode};
pub use naming::derive_short_name;
pub use playback::{Directive, Playback, SoundBuilder, Step};
pub use resource::AudioSystem;
pub use status::Status;
pub use system::{master_bank_files, text_from_buffer, DriverInfo};
pub use update_system::update_camera_position;
