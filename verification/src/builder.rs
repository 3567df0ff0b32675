use vstd::prelude::*;

verus! {

/// The gateway address a freshly made builder points at.
pub open spec fn default_ip() -> Seq<char> {
    "192.168.1.1"@
}

/// The account name a freshly made builder logs in with.
pub open spec fn default_username() -> Seq<char> {
    "useradmin"@
}

/// The password a freshly made builder logs in with.
pub open spec fn default_password() -> Seq<char> {
    Seq::<char>::empty()
}

/// Connection parameters for a router session: the router's address and
/// the credentials of the login form. Each setter replaces one field and
/// leaves the others alone.
pub struct TianyiBuilder {
    pub ip: String,
    pub username: String,
    pub password: String,
}

impl Default for TianyiBuilder {
    /// A builder holding the router's factory defaults: the private
    /// gateway address, the stock admin account, and an empty password.
    fn default() -> (r: Self)
        ensures
            r.ip@ == default_ip(),
            r.username@ == default_username(),
            r.password@ == default_password(),
    {
        TianyiBuilder {
            ip: String::from_str("192.168.1.1"),
            username: String::from_str("useradmin"),
            password: String::new(),
        }
    }
}

impl TianyiBuilder {
    /// A builder holding the factory defaults.
    pub fn new() -> (r: Self)
        ensures
            r.ip@ == default_ip(),
            r.username@ == default_username(),
            r.password@ == default_password(),
    {
        Self::default()
    }

    /// Replaces the router address.
    pub fn ip(self, ip: &str) -> (r: Self)
        ensures
            r.ip@ == ip@,
            r.username@ == self.username@,
            r.password@ == self.password@,
    {
        TianyiBuilder { ip: ip.to_owned(), ..self }
    }

    /// Replaces the login account name.
    pub fn username(self, username: &str) -> (r: Self)
        ensures
            r.ip@ == self.ip@,
            r.username@ == username@,
            r.password@ == self.password@,
    {
        TianyiBuilder { username: username.to_owned(), ..self }
    }

    /// Replaces the login password.
    pub fn password(self, password: &str) -> (r: Self)
        ensures
            r.ip@ == self.ip@,
            r.username@ == self.username@,
            r.password@ == password@,
    {
        TianyiBuilder { password: password.to_owned(), ..self }
    }
}

} // verus!
