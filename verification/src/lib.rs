//! A verified session-state engine for a multiplayer-randomizer bot: a
//! seed-keyed progress store, a snapshot codec for durable persistence, a
//! one-shot goal handshake, and the decision logic of the two cooperating
//! tasks (inbound event handling and outbound play decisions).

pub mod bootstrap;
pub mod codec;
pub mod goal;
pub mod inbound;
pub mod outbound;
pub mod shared;
pub mod store;
