//! Frame-locked trigger synchronization: the decisions of a host loop that
//! shows a full-screen stimulus once per display cycle and signals it over a
//! serial link, and the command handler of the bridge device that mirrors the
//! signal onto an output pin.
pub mod bridge;
pub mod cycle;
pub mod link;
pub mod surface;
pub mod trigger_loop;
