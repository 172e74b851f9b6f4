//! The remote view of a Dojo world: the resources that a world contract manages on chain, as
//! the events of the contract tell of them.
//!
//! [`fetch`] decides which events to ask a node for, and [`world`] applies them one by one.
//! [`laws`] states what holds of every fetch and of every world, [`event_laws`] what each event
//! changes, [`history_laws`] what a world says that is built from its events, [`fetch_laws`]
//! what each reply of the node leads to, and [`text_laws`] and [`value_laws`] what texts and
//! the other values stand for.
pub mod byte_array;
pub mod error;
pub mod event;
pub mod event_laws;
pub mod felt;
pub mod felt_map;
pub mod fetch;
pub mod fetch_laws;
pub mod history_laws;
pub mod laws;
pub mod naming;
pub mod resource;
pub mod text_laws;
pub mod value_laws;
pub mod world;
