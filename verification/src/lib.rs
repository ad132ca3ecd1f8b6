//! Group disk-quota records: reading snapshots, rendering quantities,
//! evaluating limits, and the navigation state of a dashboard that shows them.

pub mod groups;
pub mod nav;
pub mod number;
pub mod record;
pub mod snapshot;
pub mod units;
pub mod warning;
