//! The configuration of one run: how to reach the network, which servers to
//! ask, and where to serve the metrics.

use crate::text::{opt_text, same_text, texts};
use vstd::prelude::*;
use vstd::string::*;

verus! {

/// `irc::client::data::Config`, the connection parameters of the session.
/// They are carried from where the configuration is loaded to where the
/// session is opened; nothing here looks into them.
#[verifier::external_type_specification]
#[verifier::external_body]
pub struct ExSessionParameters(irc::client::data::Config);

/// `Clone` of `irc::client::data::Config`, which the type derives: every
/// field is cloned, so the copy holds the same parameters.
pub assume_specification[ <irc::client::data::Config as Clone>::clone ](
    c: &irc::client::data::Config,
) -> (r: irc::client::data::Config)
    ensures
        r == *c,
;

/// Whether `==` of `irc::client::data::Config` finds two sets of connection
/// parameters equal. The type derives the comparison: it holds where every
/// field of the one equals that field of the other, and so depends on the two
/// values alone.
pub uninterp spec fn session_parameters_same(
    a: irc::client::data::Config,
    b: irc::client::data::Config,
) -> bool;

/// The configuration of one run.
pub struct Configuration {
    /// Connection parameters of the session.
    pub irc: irc::client::data::Config,
    /// Name to ask for operator rights with. Rights are asked for only where
    /// both the name and the password are given.
    pub oper_name: Option<String>,
    /// Password to ask for operator rights with.
    pub oper_password: Option<String>,
    /// The servers whose reports are asked for, in the order of asking.
    pub servers: Vec<String>,
    /// The address on which the metrics are served.
    pub exporter_address: String,
}

/// What a configuration says about polling and serving: all of it but the
/// connection parameters.
pub struct Settings {
    pub oper_name: Option<Seq<char>>,
    pub oper_password: Option<Seq<char>>,
    pub servers: Seq<Seq<char>>,
    pub exporter_address: Seq<char>,
}

impl Clone for Configuration {
    /// A copy with the same connection parameters and the same settings.
    fn clone(&self) -> (r: Self)
        ensures
            r.irc == self.irc,
            r.settings() == self.settings(),
    {
        let servers = self.servers.clone();
        assert(texts(servers@) =~= texts(self.servers@));
        Configuration {
            irc: self.irc.clone(),
            oper_name: self.oper_name.clone(),
            oper_password: self.oper_password.clone(),
            servers,
            exporter_address: self.exporter_address.clone(),
        }
    }
}

impl Configuration {
    /// What this configuration says about polling and serving.
    pub open spec fn settings(&self) -> Settings {
        Settings {
            oper_name: opt_text(self.oper_name),
            oper_password: opt_text(self.oper_password),
            servers: texts(self.servers@),
            exporter_address: self.exporter_address@,
        }
    }

    /// Whether two configurations say the same about polling and serving.
    pub fn same_settings(&self, other: &Configuration) -> (r: bool)
        ensures
            r == (self.settings() == other.settings()),
    {
        let same = same_opt_text(&self.oper_name, &other.oper_name) && same_opt_text(
            &self.oper_password,
            &other.oper_password,
        ) && same_texts(&self.servers, &other.servers) && same_text(
            self.exporter_address.as_str(),
            other.exporter_address.as_str(),
        );
        same
    }

    /// Whether two configurations are equal: in their connection parameters,
    /// as their own `==` decides it, and in their settings.
    pub fn same_as(&self, other: &Configuration) -> (r: bool)
        ensures
            r == (session_parameters_same(self.irc, other.irc) && self.settings()
                == other.settings()),
    {
        let same_session = session_parameters_equal(&self.irc, &other.irc);
        self.same_given(other, same_session)
    }

    /// Whether two configurations are equal, given whether their connection
    /// parameters are: they are equal where those are and the settings are.
    pub fn same_given(&self, other: &Configuration, same_session: bool) -> (r: bool)
        ensures
            r == (same_session && self.settings() == other.settings()),
    {
        same_session && self.same_settings(other)
    }
}

/// Whether two optional strings hold the same.
pub fn same_opt_text(a: &Option<String>, b: &Option<String>) -> (r: bool)
    ensures
        r == (opt_text(*a) == opt_text(*b)),
{
    match (a, b) {
        (Some(a), Some(b)) => same_text(a.as_str(), b.as_str()),
        (None, None) => true,
        _ => false,
    }
}

/// Whether two lists of strings hold the same texts in the same order.
pub fn same_texts(a: &Vec<String>, b: &Vec<String>) -> (r: bool)
    ensures
        r == (texts(a@) == texts(b@)),
{
    if a.len() != b.len() {
        assert(texts(a@).len() != texts(b@).len());
        return false;
    }
    let mut i: usize = 0;
    while i < a.len()
        invariant
            i <= a.len() == b.len(),
            forall|j: int| 0 <= j < i ==> a@[j]@ == b@[j]@,
        decreases a.len() - i,
    {
        if !same_text(a[i].as_str(), b[i].as_str()) {
            assert(texts(a@)[i as int] != texts(b@)[i as int]);
            return false;
        }
        i += 1;
    }
    assert(texts(a@) =~= texts(b@));
    true
}

/// Compares two sets of connection parameters with `==`, which
/// `irc::client::data::Config` derives. The answer is given the name
/// `session_parameters_same`; nothing more is claimed of it.
#[verifier::external_body]
pub(crate) fn session_parameters_equal(
    a: &irc::client::data::Config,
    b: &irc::client::data::Config,
) -> (r: bool)
    ensures
        r == session_parameters_same(*a, *b),
{
    a == b
}

} // verus!
