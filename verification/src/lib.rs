//! A process-local publish/subscribe fan-out hub for server-sent event
//! streams, verified end to end.
//!
//! The hub owns a registry of live subscribers, each with a bounded FIFO
//! queue of framed messages. `subscribe` registers a fresh subscriber and
//! hands it the connect sentinel; `publish` fans a framed payload out to
//! every live subscriber without ever blocking, silently dropping the
//! message for any subscriber whose queue is full or whose consumer is
//! gone; `sweep` probes every live subscriber with a ping and evicts the
//! ones that cannot take it. Consumers drain their queue through
//! `next_message`, which mirrors a pull-based stream: a message, "nothing
//! yet", or end-of-stream once the subscriber has been evicted and drained.
//!
//! Every operation is specified as a pure transition on a mathematical
//! model of the hub ([`hub::HubModel`]), and the executable code is proved
//! to implement exactly that transition. The laws the hub obeys (registry
//! growth, per-subscriber FIFO order, bounded backpressure, sweep
//! eviction) are stated and proved in [`laws`].

pub mod form;
pub mod frame;
pub mod hub;
pub mod laws;
pub mod queries;
pub mod redirect;
