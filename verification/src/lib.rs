//! Lifecycle and result handling for compiled regular expressions.
//!
//! The matching engine itself is a native collaborator that lives outside this
//! crate. Everything here is a decision on plain values: which call to hand to
//! the engine, and what its answer means for the pattern handle, the cursor and
//! the match that is returned.

pub mod option_set;
pub mod cursor;
pub mod detail;
pub mod error;
pub mod lifecycle;
pub mod matched;
pub mod name_table;
pub mod options;
pub mod pattern;
pub mod text;
pub mod version;

pub use crate::cursor::MatchIterator;
pub use crate::detail::Fault;
pub use crate::detail::Release;
pub use crate::error::CompilationError;
pub use crate::matched::Match;
pub use crate::name_table::NameTable;
pub use crate::option_set::OptionKind;
pub use crate::option_set::OptionSet;
pub use crate::options::CompileOption;
pub use crate::options::ExecOption;
pub use crate::options::ExtraOption;
pub use crate::options::StudyOption;
pub use crate::pattern::Pcre;
pub use crate::version::Version;
