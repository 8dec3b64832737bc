pub mod in_memory;
pub mod stored;
