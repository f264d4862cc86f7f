//! A verified core for the haxby virtual machine: bytecode decoding, symbol
//! interning, object shapes, and the logic of the builtin functions.
pub mod bc_reader;
pub mod opcodes;
pub mod symbol;
pub mod shape;
pub mod object;
pub mod text;
pub mod dump;
pub mod compiled;
pub mod sidecar;
pub mod errors;
pub mod strings;
pub mod list;
pub mod enumeration;
pub mod runtime_error;
pub mod regex_ops;
pub mod test_runner;
pub mod runtime_module;
pub mod builtins;
pub mod char_classes;
pub mod network;
pub mod files;
pub mod builtin_enums;
pub mod operators;
pub mod attributes;
pub mod mixins;
pub mod exception;
pub mod paths;
pub mod globals;
pub mod codegen;
