//! A verified library of Vimscript values and builtin functions.
#![allow(non_camel_case_types, non_snake_case, non_upper_case_globals)]

pub mod typval_defs;
pub mod dup;
pub mod charset;
pub mod mbyte;
pub mod typval;
pub mod typval_list;
pub mod typval_dict;
pub mod typval_blob;
pub mod typval_check;
pub mod typval_copy;
pub mod typval_items;
pub mod funcs_basic;
pub mod funcs_editor;
pub mod funcs_misc;
pub mod funcs_table;
pub mod buffer;
pub mod vars;
pub mod msgpack;
pub mod list_funcs;
pub mod textbuf;
pub mod highlight;
pub mod history;
pub mod digraph;
pub mod rand;
pub mod cmdstate;
pub mod matches;
pub mod reduce;
pub mod mapping;
pub mod usercmd;
pub mod autocmd;
pub mod signs;
pub mod funcs_inactive;
pub mod funcs_text;
pub mod quickfix;
pub mod wordcount;
pub mod printf;
pub mod asserts;
pub mod fuzzy;
pub mod registers;
pub mod message;
pub mod somematch;
pub mod join;
pub mod sort;
