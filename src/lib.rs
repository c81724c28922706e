//! A small text-rewriting engine for a chat bot: an ordered table of
//! stem rules rewrites every occurrence of a stem in a message, and a
//! praise detector recognises thanks addressed to the bot.
pub mod matcher;
pub mod praise;
pub mod rules;
pub mod transform;
