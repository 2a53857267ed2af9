//! The capabilities of a server that the client relies on.
use vstd::prelude::*;
use crate::imap::response::ServerCapability;
use crate::text::str_eq;

verus! {

/// A capability the client makes use of.
#[derive(Copy, Clone, Debug, PartialEq, Eq, Structural)]
pub enum Capability {
    Condstore,
    Enable,
    Idle,
    Imap4rev1,
    QResync,
}

/// The capability that an announced atom names, if the client knows it.
pub open spec fn atom_capability(name: Seq<char>) -> Option<Capability> {
    if name == "CONDSTORE"@ {
        Some(Capability::Condstore)
    } else if name == "ENABLE"@ {
        Some(Capability::Enable)
    } else if name == "IDLE"@ {
        Some(Capability::Idle)
    } else if name == "QRESYNC"@ {
        Some(Capability::QResync)
    } else {
        None
    }
}

/// The known capability that an announcement stands for, if any; an `AUTH=`
/// announcement stands for none.
pub open spec fn announced(c: ServerCapability) -> Option<Capability> {
    match c {
        ServerCapability::Imap4rev1 => Some(Capability::Imap4rev1),
        ServerCapability::Auth(_) => None,
        ServerCapability::Atom(name) => atom_capability(name@),
    }
}

/// The set of capabilities after recording an announcement.
pub open spec fn after_insert(s: Set<Capability>, capability: ServerCapability) -> Set<Capability> {
    match announced(capability) {
        Some(c) => s.insert(c),
        None => s,
    }
}

/// Recording an announcement keeps every capability already known, and
/// recording it a second time changes nothing.
pub proof fn lemma_insert_keeps_and_repeats(s: Set<Capability>, capability: ServerCapability)
    ensures
        s.subset_of(after_insert(s, capability)),
        after_insert(after_insert(s, capability), capability) == after_insert(s, capability),
{
    match announced(capability) {
        Some(c) => {
            assert(s.insert(c).insert(c) =~= s.insert(c));
        },
        None => {},
    }
}

/// The known capabilities among a list of announcements.
pub open spec fn announced_set(caps: Seq<ServerCapability>) -> Set<Capability> {
    Set::new(|c: Capability| exists|i: int| 0 <= i < caps.len() && announced(#[trigger] caps[i]) == Some(c))
}

/// Looks up the capability an atom names.
fn atom_capability_of(name: &String) -> (r: Option<Capability>)
    ensures
        r == atom_capability(name@),
{
    if str_eq(name.as_str(), "CONDSTORE") {
        Some(Capability::Condstore)
    } else if str_eq(name.as_str(), "ENABLE") {
        Some(Capability::Enable)
    } else if str_eq(name.as_str(), "IDLE") {
        Some(Capability::Idle)
    } else if str_eq(name.as_str(), "QRESYNC") {
        Some(Capability::QResync)
    } else {
        None
    }
}

/// A set of known capabilities.
#[derive(Debug)]
pub struct Capabilities {
    condstore: bool,
    enable: bool,
    idle: bool,
    imap4rev1: bool,
    qresync: bool,
}

impl View for Capabilities {
    type V = Set<Capability>;

    closed spec fn view(&self) -> Set<Capability> {
        Set::new(
            |c: Capability|
                match c {
                    Capability::Condstore => self.condstore,
                    Capability::Enable => self.enable,
                    Capability::Idle => self.idle,
                    Capability::Imap4rev1 => self.imap4rev1,
                    Capability::QResync => self.qresync,
                },
        )
    }
}

impl Default for Capabilities {
    fn default() -> (r: Self)
        ensures
            r@ == Set::<Capability>::empty(),
    {
        let r = Capabilities {
            condstore: false,
            enable: false,
            idle: false,
            imap4rev1: false,
            qresync: false,
        };
        assert(r@ =~= Set::<Capability>::empty());
        r
    }
}

impl Capabilities {
    fn add(&mut self, c: Capability)
        ensures
            final(self)@ == old(self)@.insert(c),
    {
        match c {
            Capability::Condstore => self.condstore = true,
            Capability::Enable => self.enable = true,
            Capability::Idle => self.idle = true,
            Capability::Imap4rev1 => self.imap4rev1 = true,
            Capability::QResync => self.qresync = true,
        }
        assert(self@ =~= old(self)@.insert(c));
    }

    /// Records an announced capability; unknown ones are passed over.
    /// An `AUTH=` announcement does not belong here.
    pub fn insert(&mut self, capability: &ServerCapability)
        requires
            !(*capability is Auth),
        ensures
            final(self)@ == after_insert(old(self)@, *capability),
    {
        match capability {
            ServerCapability::Imap4rev1 => {
                self.add(Capability::Imap4rev1);
            },
            ServerCapability::Auth(_) => {},
            ServerCapability::Atom(name) => {
                if let Some(c) = atom_capability_of(name) {
                    self.add(c);
                }
            },
        }
    }

    /// Whether the set holds `other`.
    pub fn contains(&self, other: Capability) -> (r: bool)
        ensures
            r == self@.contains(other),
    {
        match other {
            Capability::Condstore => self.condstore,
            Capability::Enable => self.enable,
            Capability::Idle => self.idle,
            Capability::Imap4rev1 => self.imap4rev1,
            Capability::QResync => self.qresync,
        }
    }
}

/// An authentication mechanism the client knows.
#[derive(Copy, Clone, Debug, PartialEq, Eq, Structural)]
pub enum AuthCapability {
    Plain,
}

/// The authentication mechanism that an `AUTH=` name stands for, if known.
pub open spec fn auth_capability(name: Seq<char>) -> Option<AuthCapability> {
    if name == "PLAIN"@ {
        Some(AuthCapability::Plain)
    } else {
        None
    }
}

/// A set of known authentication mechanisms.
#[derive(Debug)]
pub struct AuthCapabilities {
    plain: bool,
}

impl View for AuthCapabilities {
    type V = Set<AuthCapability>;

    closed spec fn view(&self) -> Set<AuthCapability> {
        Set::new(
            |c: AuthCapability|
                match c {
                    AuthCapability::Plain => self.plain,
                },
        )
    }
}

impl Default for AuthCapabilities {
    fn default() -> (r: Self)
        ensures
            r@ == Set::<AuthCapability>::empty(),
    {
        let r = AuthCapabilities { plain: false };
        assert(r@ =~= Set::<AuthCapability>::empty());
        r
    }
}

impl AuthCapabilities {
    /// Records an announced `AUTH=` capability; unknown mechanisms are
    /// passed over. Only an `AUTH=` announcement belongs here.
    pub fn insert(&mut self, capability: &ServerCapability)
        requires
            *capability is Auth,
        ensures
            final(self)@ == match auth_capability(capability->Auth_0@) {
                Some(c) => old(self)@.insert(c),
                None => old(self)@,
            },
    {
        if let ServerCapability::Auth(name) = capability {
            if str_eq(name.as_str(), "PLAIN") {
                self.plain = true;
            }
        }
        assert(self@ =~= match auth_capability(capability->Auth_0@) {
            Some(c) => old(self)@.insert(c),
            None => old(self)@,
        });
    }

    /// Whether the set holds `other`.
    pub fn contains(&self, other: AuthCapability) -> (r: bool)
        ensures
            r == self@.contains(other),
    {
        match other {
            AuthCapability::Plain => self.plain,
        }
    }
}

} // verus!
