//! The rules of the command line tool `of`.
pub mod commands;
pub mod manual;
pub mod skill;
