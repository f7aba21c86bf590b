//! World model of a grid-based cellular-automaton toy: a forward-star
//! directed graph encodes a toroidal grid once and serves two traversal
//! semantics (tagged edges for cursor navigation, all edges for neighbor
//! counting), a two-state life-like rule table drives generation updates,
//! a mode state machine governs which grid is active, and a fixed-layout
//! byte codec persists cell states and rules.

pub mod codec;
pub mod cursor;
pub mod engine;
pub mod graph;
pub mod grid;
pub mod laws;
pub mod rules;
pub mod session;
