//! Host side of a sandboxed request runtime: the lifecycle controller, the
//! per-request bridge into a guest sandbox, the fixed channel table handed to
//! the guest, the framing of the guest's log records and the encoding of
//! request and response metadata.

pub mod bridge;
pub mod channels;
pub mod lifecycle;
pub mod logs;
pub mod wire;
