//! Core of a typing-practice game: annotated text, a keystroke matcher driven
//! by an input-method table, per-character correctness and typing metrics.
//!
//! A source text is parsed into a content ([`parser`]). An attempt at a
//! content takes keystrokes one by one ([`typing`]): each is matched against
//! the table ([`matcher`]), moves the cursor, marks the cells of the tracker
//! and is logged with its time. The log adds up to the metrics ([`metrics`]).
//! The game as a whole is a state per screen ([`model`]) that moves on
//! messages ([`msg`], [`update`]); keys, scroll positions and texts come in
//! through [`events`], and [`render`] gathers what is drawn for a state.
//!
//! Functions state what they return over the mathematical value of their
//! arguments, the `view` of each type, and are proved to meet that statement.
//! A few private functions stand for functions of the standard library and of
//! the JSON reader; what is stated of those is taken on trust, and each says
//! so.

pub mod events;
pub mod layout;
pub mod matcher;
pub mod metrics;
pub mod model;
pub mod msg;
pub mod parser;
pub mod render;
pub mod text;
pub mod textrender;
pub mod timestamp;
pub mod typing;
pub mod update;
