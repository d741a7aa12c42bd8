//! Small verified containers: a hybrid inline/heap vector, a circular byte
//! queue, and a boxed arithmetic expression evaluator.

pub mod expr;
pub mod hybrid;
pub mod ring;
