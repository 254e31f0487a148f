//! A reactive terminal UI runtime: an application describes its interface
//! as a pure function from data to a view value, and the runtime reconciles
//! successive view values against a retained widget tree, recomputing
//! layout and repainting only where dirty flags demand it, while
//! asynchronous application work is coalesced through a small
//! synchronization state machine.

pub mod app_core;
pub mod flags;
pub mod geometry;
pub mod ident;
pub mod style;
pub mod view;
pub mod widget;

pub use app_core::{
    AppMessage, AppTask, RenderResponse, RenderRoot, RootError, UiState, WakeOutcome,
};
pub use flags::{ChangeFlags, PodFlags};
pub use geometry::{BoxConstraints, Point, Size};
pub use ident::{Cx, NodeId};
pub use style::{
    BorderKind, BorderStyle, BorderStyles, Color, Colors, Style, TextStyles, Theme,
};
pub use view::{MessageResult, StateList, View, ViewState};
pub use widget::{
    DrawCmd, DrawContent, Event, Message, MessageBody, NodeKind, Pod, Widget, WidgetState,
};
