//! Run several commands side by side and tag each output line with the
//! command it came from.
//!
//! The library holds the decisions: how the argument list splits into the
//! global options and the commands, which flags are set, how each output line
//! is labelled and coloured, and what the announcement and status lines say.
//! Spawning processes and moving bytes between pipes is left to the caller.

mod args;
mod commands;
mod options;
mod printer;
mod text;

pub use args::{
    concat_groups, groups, lemma_command_groups_non_empty, lemma_first_group_is_prefix,
    lemma_separator_only_whole_token, non_empty, parse_args, segments, separator, split_groups,
    tokens, without_separators,
};
pub use commands::{
    announcement, announcement_line, help_lines, help_text, palette, palette_color, plan_run,
    slot_label, slot_printer, status_line, status_report, version_text, RunPlan, PALETTE_SIZE,
};
pub use options::{
    lemma_options_ignore_order, lemma_unknown_tokens_ignored, options_of, runmany_args_to_options,
    RunmanyOptions,
};
pub use printer::{
    is_painting, is_whole_line, lemma_plain_line, printed_line, reset_code, shows, Printer,
};
pub use text::{
    decimal, decimal_text, digit_char, join_words, joined, signed_decimal, signed_decimal_text,
};
