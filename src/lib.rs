//! Sentence selection for a Japanese/English flashcard study tool: corpus
//! parsing, kanji level filtering, and the reveal/next selection state.
pub mod filter;
pub mod level;
pub mod sentances;
pub mod session;
pub mod table;
