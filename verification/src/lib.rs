//! escriba — the verified core of a modal text editor: positions and
//! ranges, selections, the jumplist, damage tracking, registers, filetype
//! comment syntax, the ex-command grammar, the keymap, and the typed
//! declarations an rc file can make.

pub mod text;
pub mod position;
pub mod range;
pub mod edit;
pub mod generation;
pub mod id;
pub mod damage;
pub mod register;
pub mod mode;
pub mod motion;
pub mod action;
pub mod selection;
pub mod jumplist;
pub mod filetype;
pub mod encoding;
pub mod line_ending;
pub mod undo;
pub mod rope;
pub mod buffer;
pub mod buffer_set;
pub mod ex;
pub mod lisp;
pub mod assoc;
pub mod keys;
pub mod keymap;
pub mod keymap_defaults;
pub mod order;
pub mod outcome;
pub mod natives;
pub mod command;
pub mod option_store;
pub mod input;
pub mod config;
