//! The rules of ai-memory, a long-term memory for coding agents.
//!
//! - A session leaves observations behind ([`observation`]). They are counted
//!   ([`tally`]), and written up as a page of the wiki ([`synth`], [`body`],
//!   [`page`]); [`session_properties`] and [`page_properties`] say what holds of
//!   every session and of every such page.
//! - The wiki is kept in a git repository: opening it ([`git`]), committing to it
//!   ([`git_commit`]), reading its history ([`git_history`], [`git_log`], [`git_message`]), and
//!   the `git` command where the git library fails ([`git_cli`]), with
//!   [`git_properties`] on all of them.
//! - Providers of language models: which one is meant and how it fares
//!   ([`provider`]), what goes wrong with one ([`error`]), the exchange with one
//!   of them ([`codex_responses`]), and a smoke test ([`llm_test`]), with
//!   [`provider_properties`].
//! - The report of a server on itself ([`status`], [`status_properties`]).
//! - Text and numbers in decimal, on which all of these rest ([`text`],
//!   [`text_properties`]).
//!
//! Nothing here touches a disk or a network. Where a rule alternates with such
//! work, it is a step: it says what to do next, and takes what came of it.

pub mod body;
pub mod clock;
pub mod codex_responses;
pub mod error;
pub mod git;
pub mod git_cli;
pub mod git_commit;
pub mod git_history;
pub mod git_log;
pub mod git_message;
pub mod git_properties;
pub mod ids;
pub mod json;
pub mod llm_test;
pub mod observation;
mod order;
pub mod page;
pub mod page_properties;
pub mod provider;
pub mod provider_properties;
pub mod session_properties;
pub mod status;
pub mod status_properties;
pub mod synth;
pub mod tally;
pub mod text;
pub mod text_properties;
