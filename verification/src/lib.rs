//! A verified marshalling layer for a reference-counted dynamic-runtime
//! value model ("the host"): the fixed-size tagged value cell, the canonical
//! tag/flag encoding, outbound and inbound value conversion, and an ownership
//! discipline for host-managed heap blocks that releases every acquired
//! reference exactly once.
//!
//! The host's heap and entry points (allocator, destructor, hash table,
//! object handlers) are modelled as explicit data in [`zend_mm`], so every
//! decision this layer makes against them is verified.

pub mod array;
pub mod assign;
pub mod conv_from;
pub mod decimal;
pub mod execute_data;
pub mod object;
pub mod static_from;
pub mod zend_mm;
pub mod zend_module;
pub mod zstr;
pub mod zval;
