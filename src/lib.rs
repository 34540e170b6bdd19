//! Synchronises a workspace's private-channel directory into a local record
//! store and drives a bulk invitation of one user into every stored channel.
//!
//! Everything that talks to the network or the file system lives outside this
//! library; what is here decides, from plain values, what happens next.
pub mod fetch;
pub mod invite;
pub mod pipeline;
pub mod record;
pub mod store;
pub mod text;

pub use fetch::{FetchError, FetchStep, ListReply, filter_channels, on_list_reply};
pub use invite::{InviteOutcome, InviteReply, OutcomeView, classify, report_line};
pub use pipeline::{Action, Command, Event, InviteRun, Phase, RunError, RunView, parse_command, unknown_command_message};
pub use record::{ChannelRecord, RecordView, RemoteChannel, Visibility};
pub use store::{StoreError, decode_rows, encode_rows, stage};
pub use text::{contains_text, ends_with_text, same_text};
