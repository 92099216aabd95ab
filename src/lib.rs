//! An event scheduling and dispatch engine for live interactive installations.
//!
//! The library holds the item registry, the delayed-event queue, the status
//! state machine, the dispatcher that executes event details, and the single
//! actor that serialises every change against its producers.
pub mod item;
pub mod queue;
pub mod status;
pub mod table;
pub mod handler;
mod channel;
pub mod interface;
pub mod text;

pub use crate::handler::{Config, EventAction, EventDelay, EventDetail, EventHandler, UpcomingEvent};
pub use crate::interface::{
    DisplayComponent, DisplaySetting, EditAction, EventGroup, EventWindow, GeneralUpdate, InterfaceUpdate,
    ReplyType, RequestType, SystemInterface, SystemSend, SystemUpdate, WindowType,
};
pub use crate::item::{DisplayType, ItemDescription, ItemId, ItemPair};
pub use crate::text::clean_text;
