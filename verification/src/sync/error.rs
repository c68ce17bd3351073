//! The synchronization error taxonomy.

use vstd::prelude::*;
use crate::text::dec_digits;
use vstd::string::StringExecFns;

verus! {

/// What went wrong.
#[derive(PartialEq, Eq, Debug, Copy, Clone, Structural)]
pub enum Kind {
    IncompatCommand,
    WrongSourcePath,
    WrongDestPath,
    WrongNetworkReach,
    SshRequiringPassword,
    BadReturnCode,
    BadPath,
    BadCmd,
    ThreadError,
    TimeoutError,
    RecvError,
    Generic,
}

/// A synchronization error: its kind, an optional return code, and an
/// optional fixed message.
#[derive(Copy, Clone, Debug)]
pub struct Error {
    kind: Kind,
    code: Option<u16>,
    message: Option<&'static str>,
}

/// The text a kind renders as.
pub open spec fn kind_text(k: Kind) -> Seq<char> {
    match k {
        Kind::IncompatCommand => "Command Incompatible"@,
        Kind::WrongSourcePath => "Chemin Source Erroné"@,
        Kind::WrongDestPath => "Chemin de destination éronné"@,
        Kind::WrongNetworkReach => "Cible réseau éronnée"@,
        Kind::SshRequiringPassword => "SSH demande un mot de passe"@,
        Kind::BadReturnCode => "Mauvais code retour"@,
        Kind::BadPath => "Mauvais Path"@,
        Kind::BadCmd => "Erreur de commande"@,
        Kind::ThreadError => "Erreur de threading"@,
        Kind::TimeoutError => "Delai d'attente dépassé"@,
        Kind::RecvError => "Erreur de réception"@,
        Kind::Generic => "Erreur"@,
    }
}

/// The text an optional code appends.
pub open spec fn code_text(c: Option<u16>) -> Seq<char> {
    match c {
        Some(n) => " :: Code: "@ + dec_digits(n as int),
        None => Seq::empty(),
    }
}

/// The text an optional message appends.
pub open spec fn message_text(m: Option<&'static str>) -> Seq<char> {
    match m {
        Some(s) => " :: Message: "@ + s@,
        None => Seq::empty(),
    }
}

impl Error {
    /// The spec-level fields.
    pub closed spec fn spec_kind(&self) -> Kind {
        self.kind
    }

    pub closed spec fn spec_code(&self) -> Option<u16> {
        self.code
    }

    pub closed spec fn spec_message(&self) -> Option<&'static str> {
        self.message
    }

    pub fn new(k: Kind, c: Option<u16>, m: Option<&'static str>) -> (r: Error)
        ensures
            r.spec_kind() == k,
            r.spec_code() == c,
            r.spec_message() == m,
    {
        Error { kind: k, code: c, message: m }
    }

    pub fn new_incompat(m: &'static str) -> (r: Error)
        ensures
            r.spec_kind() == Kind::IncompatCommand,
            r.spec_code() is None,
            r.spec_message() == Some(m),
    {
        Error::new(Kind::IncompatCommand, None, Some(m))
    }

    pub fn new_wrsource(m: &'static str) -> (r: Error)
        ensures
            r.spec_kind() == Kind::WrongSourcePath,
            r.spec_code() is None,
            r.spec_message() == Some(m),
    {
        Error::new(Kind::WrongSourcePath, None, Some(m))
    }

    pub fn new_wrdest(m: &'static str) -> (r: Error)
        ensures
            r.spec_kind() == Kind::WrongDestPath,
            r.spec_code() is None,
            r.spec_message() == Some(m),
    {
        Error::new(Kind::WrongDestPath, None, Some(m))
    }

    pub fn new_wrnet(m: &'static str) -> (r: Error)
        ensures
            r.spec_kind() == Kind::WrongNetworkReach,
            r.spec_code() is None,
            r.spec_message() == Some(m),
    {
        Error::new(Kind::WrongNetworkReach, None, Some(m))
    }

    pub fn new_sshpwd(m: &'static str) -> (r: Error)
        ensures
            r.spec_kind() == Kind::SshRequiringPassword,
            r.spec_code() is None,
            r.spec_message() == Some(m),
    {
        Error::new(Kind::SshRequiringPassword, None, Some(m))
    }

    pub fn new_badret(c: u16) -> (r: Error)
        ensures
            r.spec_kind() == Kind::BadReturnCode,
            r.spec_code() == Some(c),
            r.spec_message() is None,
    {
        Error::new(Kind::BadReturnCode, Some(c), None)
    }

    /// Renders the error: its kind, then its code and message when
    /// present.
    pub fn to_string(&self) -> (r: String)
        ensures
            r@ == kind_text(self.spec_kind()) + code_text(self.spec_code()) + message_text(
                self.spec_message(),
            ),
    {
        let mut kind_str = String::new();
        match self.kind {
            Kind::IncompatCommand => kind_str.append("Command Incompatible"),
            Kind::WrongSourcePath => kind_str.append("Chemin Source Erroné"),
            Kind::WrongDestPath => kind_str.append("Chemin de destination éronné"),
            Kind::WrongNetworkReach => kind_str.append("Cible réseau éronnée"),
            Kind::SshRequiringPassword => kind_str.append("SSH demande un mot de passe"),
            Kind::BadReturnCode => kind_str.append("Mauvais code retour"),
            Kind::BadPath => kind_str.append("Mauvais Path"),
            Kind::BadCmd => kind_str.append("Erreur de commande"),
            Kind::ThreadError => kind_str.append("Erreur de threading"),
            Kind::TimeoutError => kind_str.append("Delai d'attente dépassé"),
            Kind::RecvError => kind_str.append("Erreur de réception"),
            Kind::Generic => kind_str.append("Erreur"),
        }
        match self.code {
            Some(n) => {
                kind_str.append(" :: Code: ");
                let digits = crate::text::u64_to_string(n as u64);
                kind_str.append(digits.as_str());
            },
            None => {},
        }
        match &self.message {
            Some(s) => {
                kind_str.append(" :: Message: ");
                kind_str.append(s);
            },
            None => {},
        }
        kind_str
    }
}

} // verus!
