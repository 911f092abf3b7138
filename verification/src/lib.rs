//! The state and logic of a native agent workbench: a chat with inline
//! markdown, an agents and projects sidebar, a file tree, a kanban board,
//! settings switches and theme settings. Every transition of the state is a
//! verified function from state and message to next state and effect.

pub mod collections;
pub mod data;
pub mod inline;
pub mod laws;
pub mod markdown;
pub mod model;
pub mod panels;
pub mod seqs;
pub mod state;
pub mod text;
pub mod theme;

pub use data::new;
pub use model::{
    AgentProfile, CardStatus, ChatMessage, CreateDialog, FsNode, KanbanCard, KanbanColumn,
    LaneGroup, LeftPanel, Overlay, ProjectNode, RepoNode, RightTab, SessionPreview,
};
pub use state::{update, Action, Message, State, AGENTS_PANEL_SCROLL_ID};
pub use theme::{Appearance, FontScale};
