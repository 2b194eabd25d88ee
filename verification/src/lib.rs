//! A fixed-capacity double-ended queue backed by a non-reallocating block
//! of slots. Elements can be pushed to and popped from both ends; when the
//! buffer is full a push is rejected and the value is handed back intact.

mod array;
mod array_vec_deque;

pub use array::Array;
pub use array::ArrayExt;
pub use array_vec_deque::ArrayVecDeque;
pub use array_vec_deque::CapacityError;
pub use array_vec_deque::count;
pub use array_vec_deque::wrap_index;
pub use array::FixedBlock;
pub use array::Index;
