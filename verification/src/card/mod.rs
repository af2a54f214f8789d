//! Setting up a card: what is asked of the person at the other end, in what
//! order the card is written, and where its new management key goes.
pub mod choice_laws;
pub mod engine;
pub mod frontend;
pub mod init_cmd;
pub mod laws;
pub mod protocol;
pub mod seal;
