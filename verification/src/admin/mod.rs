//! The qubesd admin interface: message framing, reply parsing, the client's
//! call planning, and the data types they produce.
pub mod client;
pub mod error;
pub mod events;
pub mod protocol;
pub mod stats;
pub mod types;

pub use client::AdminClient;
pub use error::{AdminError, AdminResult};
pub use events::AdminEvent;
pub use types::{QubeClass, QubeInfo, QubeProperties, QubeState};
