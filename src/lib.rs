//! Decision logic of a resilient tree-walking content scraper: text helpers,
//! content records, the retry/recovery machine, child discovery, depth-bounded
//! traversal, per-node content extraction and the pipeline's bookkeeping.
//! Each machine asks for the remote work it needs and decides from what it
//! is told; the caller owns the session and performs that work.
pub mod children;
pub mod extract;
pub mod pipeline;
pub mod records;
pub mod retry;
pub mod text;
pub mod traversal;
