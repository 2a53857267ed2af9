pub mod mailbox;
pub mod modseq;
pub mod sequence_set;
pub mod uid;
pub mod uid_validity;

pub use mailbox::{Mailbox, MailboxBuilder};
pub use modseq::ModSeq;
pub use uid::Uid;
pub use uid_validity::UidValidity;
