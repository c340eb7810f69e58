//! Parcel tracking engine: the canonical parcel and event model, the
//! per-carrier normalization of raw tracking rows, change detection between a
//! fetched snapshot and the last observed state, the completion-confirmation
//! workflow, and an in-memory tracker registry.
pub mod adapter;
pub mod callback;
pub mod carrier;
pub mod completion;
pub mod engine;
pub mod message;
pub mod model;
pub mod store;
pub mod time;

pub use adapter::{RawEvent, RawHeader};
pub use carrier::Carrier;
pub use completion::CompletionState;
pub use engine::{evaluate, Evaluation};
pub use message::{completion_prompt, update_message};
pub use model::{DeliveryStatus, FetchError, Parcel, TrackingEvent};
pub use store::{
    AddError, CompletionAction, CompletionChoice, StoreError, Tracker, TrackerStore,
};
pub use time::EventTime;
