//! A verified core for a stream-multiplexing (tee-like) utility.
//!
//! The library reads nothing and writes nothing itself: it holds the logic
//! that decides what a run writes where and how the run is judged.
//! * [`escape`]: removal of ECMA-48 CSI colour/cursor escape sequences.
//! * [`policy`]: the error-mode table and the aggregation of per-sink
//!   write outcomes into a single run result.
//! * [`sink`]: sink descriptions, open modes and the byte-level model of
//!   what a truncating or appending write leaves in a file.
//! * [`fanout`]: the run configuration, the plan of one write per sink,
//!   and a pure model of a whole fan-out run.

pub mod escape;
pub mod fanout;
pub mod policy;
pub mod sink;
