//! Deciding whether filesystem paths are excluded by a set of ignore rules
//! written in the line-oriented pattern language of version-control ignore
//! files: one pattern per line, `#` comments, `!` negation, `/` anchoring,
//! and `**` recursive wildcards.

pub mod globs;
pub mod lines;
pub mod locate;
pub mod pattern;
pub mod ruleset;

pub use locate::locate_step;
pub use locate::LocateStep;
pub use pattern::Pattern;
pub use pattern::PatternType;
pub use ruleset::GitignoreFile;
pub use ruleset::IgnoreError;
