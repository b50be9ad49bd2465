//! Voice sessions for a chat assistant.
//!
//! In each guild one voice channel is the *maker*. A user who joins it gets a
//! voice channel of their own, a *session*, beside the maker; the session is
//! named after what the user is doing, and deleted once it is found empty.
//!
//! The [`registry`] holds, for each guild, the maker and the sessions. The
//! [`controller`] reads and writes it, one step at a time: every event starts
//! an operation, every step of an operation asks for one call to the chat
//! platform and takes the answer to the call before it. [`remote`] names the
//! calls, the answers and the events; [`protocol`] says what each answer
//! leads to. Nothing here talks to the platform: the program around the
//! library makes the calls.
//!
//! [`laws`] and [`world`] hold what is proved of the controller: that the
//! sessions of a guild are its live channels, that a second sweep changes
//! nothing, that a refused command changes nothing, and more.

pub mod controller;
pub mod laws;
pub mod misc;
pub mod names;
pub mod protocol;
pub mod registry;
pub mod remote;
pub mod seqs;
pub mod world;
