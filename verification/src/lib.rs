//! piggy keeps passwords in files that only a smart card can open.
//!
//! The commands on the store decide what is asked of other programs
//! ([`init`], [`insert`], [`edit`], [`copy_move`], [`find`], [`grep`],
//! [`git`], [`luks`]). The agent ([`cmd::agent`]) serves the keys of the cards
//! that are attached and speaks for other agents. [`cmd::pivy_box`] and
//! [`cmd::tool`] work on a card directly. [`card`] sets up a new card, and
//! [`health`] reports on all of it.
//!
//! Nothing here reads a file, a socket or a card: what has to be asked of
//! the world is returned as a plan, and the answer is handed back.
pub mod agent_client;
pub mod card;
pub mod card_map;
pub mod card_oracle;
pub mod cmd;
pub mod command_laws;
pub mod confirm;
pub mod copy_move;
pub mod crypt;
pub mod crypto;
pub mod ecdsa_sig;
pub mod edit;
pub mod fallback;
pub mod find;
pub mod git;
pub mod git_ops;
pub mod grep;
pub mod health;
pub mod init;
pub mod insert;
pub mod internal_clipboard_restore;
pub mod luks;
pub mod options;
pub mod path_laws;
pub mod piv;
pub mod store_path;
pub mod text;
pub mod version;
pub mod wire;
