//! Consistency checks for a project's locale file and for the translation keys
//! that its source code uses.

pub mod locale_file_parser;
pub mod key_and_eng_matches;
pub mod locale_key_collector;
pub mod rules;
pub mod missing_translations;
pub mod use_of_keys_do_not_exist;
pub mod checker;
pub mod cli_opt;
