//! Classical logic over a pluggable domain.

pub mod expression;
pub mod goal;
pub mod pattern;
pub mod proving;
