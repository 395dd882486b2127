//! Heap management and cooperative scheduling for a small single-core kernel.
//!
//! The crate holds the decision logic of the kernel: two heap allocators, the
//! scancode queue that carries bytes from the keyboard interrupt to a task,
//! the task executor, and the text that the keyboard task prints. Hardware
//! access stays with the caller, who hands in plain values and carries out
//! what the functions here decide.

pub mod allocator;
pub mod memory;
pub mod task;
pub mod vga_buffer;
