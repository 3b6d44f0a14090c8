//! A verified core for a terminal inspector that attaches to a running UI
//! application over a JSON-RPC debugging endpoint: the widget-tree view-model
//! with expansion, selection and search, the request/response bookkeeping of
//! the RPC transport, the typed decoding of inspector replies, and the state
//! machines that drive the session (discovery, pause/resume, debounced
//! auto-reload).

pub mod app_state;
pub mod debugger;
pub mod idset;
pub mod json;
pub mod node;
pub mod protocol;
pub mod render;
pub mod restore;
pub mod rpc;
pub mod search;
pub mod session;
pub mod text;
pub mod tree_nav;
pub mod uri;
pub mod walk;
