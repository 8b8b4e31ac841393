//! The protocol logic of a GnuPG pinentry that asks for PINs through a
//! desktop shell's dialog: the Assuan side spoken with gpg-agent, the
//! dialog settings collected from its SET* commands, and the decisions of
//! a session. Reading, writing and talking to the dialog are left to the
//! program around this library.

pub mod assuan;
pub mod request;
pub mod secret;
pub mod session;
pub mod text;
