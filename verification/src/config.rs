//! The rule language: its syntax tree, its symbol table and the checker that
//! turns the first into a program over the second.

pub mod ast;
pub mod checker;
pub mod symboltable;

pub use symboltable::{
    Symbol, SymbolDevice, SymbolId, SymbolKind, SymbolOutput, SymbolSensor, SymbolTableError,
    SymbolEntry, SymbolTable, SymbolTableErrorView, SymbolTableResult, SymbolType,
};
