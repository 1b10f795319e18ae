//! A line-oriented chat relay: the rate-limit counter, the registry of
//! connected peers, the per-connection session state machine and the text
//! rendering that the server speaks.

pub mod config;
pub mod counter;
pub mod registry;
pub mod session;
pub mod text;

pub use counter::Counter;
pub use config::{CliArgs, Config, ListenAddr};
pub use registry::{PeerAddr, Registry};
pub use session::{Action, Event, Session, SessionError};
