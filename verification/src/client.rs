use vstd::prelude::*;

use crate::action::{action_token, PortForwardingAction};
use crate::data::{PortForwardingRule, RuleModel};
use crate::error::TianyiError;
use crate::numeric::{dec_digits, u64_to_string};
use crate::token::{extract_token, has_token, is_token_char, token_of};

verus! {

/// A form or query parameter list as sent on the wire: name/value pairs,
/// in order.
pub open spec fn pairs_view(ps: Seq<(String, String)>) -> Seq<(Seq<char>, Seq<char>)> {
    ps.map_values(|p: (String, String)| (p.0@, p.1@))
}

/// The base URL of the router at address `ip`.
pub fn base_url(ip: &str) -> (r: String)
    ensures
        r@ == "http://"@ + ip@,
{
    let mut s = String::from_str("http://");
    s.append(ip);
    s
}

/// The login endpoint under the base URL `url`.
pub fn login_url(url: &str) -> (r: String)
    ensures
        r@ == url@ + "/cgi-bin/luci"@,
{
    let mut s = url.to_owned();
    s.append("/cgi-bin/luci");
    s
}

/// The login form: the account name as `username`, the password as `psd`.
pub fn login_form(username: &str, password: &str) -> (r: Vec<(String, String)>)
    ensures
        pairs_view(r@) =~= seq![("username"@, username@), ("psd"@, password@)],
{
    let mut out: Vec<(String, String)> = Vec::new();
    out.push((String::from_str("username"), username.to_owned()));
    out.push((String::from_str("psd"), password.to_owned()));
    out
}

/// An authenticated session with the router: the base URL and the
/// session token captured from the login page. The HTTP transport and
/// its cookie jar live with the caller; the methods here say exactly
/// what each follow-up request is.
pub struct Tianyi {
    pub url: String,
    pub token: String,
}

impl Tianyi {
    /// The token has the shape the login page embeds: exactly thirty-two
    /// lowercase alphanumeric characters.
    pub open spec fn wf(&self) -> bool {
        &&& self.token@.len() == 32
        &&& forall|i: int| 0 <= i < 32 ==> is_token_char(#[trigger] self.token@[i])
    }

    /// Builds a session from a base URL and the login response body.
    /// Construction succeeds exactly when the body embeds a session
    /// token, and the session then holds the captured token; a body
    /// without one is an authentication failure, and no session is
    /// produced.
    pub fn from_login(url: &str, body: &str) -> (r: Result<Tianyi, TianyiError>)
        ensures
            has_token(body@) <==> r is Ok,
            r matches Ok(t) ==> t.url@ == url@ && t.token@ == token_of(body@) && t.wf(),
            !has_token(body@) ==> r == Err::<Tianyi, TianyiError>(TianyiError::Authentication),
    {
        match extract_token(body) {
            Some(tok) => {
                proof {
                    crate::token::lemma_token_of_shape(body@);
                }
                Ok(Tianyi { url: url.to_owned(), token: tok })
            },
            None => Err(TianyiError::Authentication),
        }
    }

    /// The logout request: endpoint and form, carrying the session token
    /// and the caller's fresh cache-busting value `cb`.
    pub fn logout_request(&self, cb: &str) -> (r: (String, Vec<(String, String)>))
        ensures
            r.0@ == self.url@ + "/cgi-bin/luci/admin/logout"@,
            pairs_view(r.1@) =~= seq![("token"@, self.token@), ("_"@, cb@)],
    {
        let mut u = self.url.clone();
        u.append("/cgi-bin/luci/admin/logout");
        let mut form: Vec<(String, String)> = Vec::new();
        form.push((String::from_str("token"), self.token.clone()));
        form.push((String::from_str("_"), cb.to_owned()));
        (u, form)
    }

    /// The gateway-information request: endpoint and query parameters.
    pub fn gwinfo_request(&self, cb: &str) -> (r: (String, Vec<(String, String)>))
        ensures
            r.0@ == self.url@ + "/cgi-bin/luci/admin/settings/gwinfo"@,
            pairs_view(r.1@) =~= seq![("get"@, "part"@), ("_"@, cb@)],
    {
        let mut u = self.url.clone();
        u.append("/cgi-bin/luci/admin/settings/gwinfo");
        let mut query: Vec<(String, String)> = Vec::new();
        query.push((String::from_str("get"), String::from_str("part")));
        query.push((String::from_str("_"), cb.to_owned()));
        (u, query)
    }

    /// The port-forwarding snapshot request: endpoint and query
    /// parameters (the cache buster alone).
    pub fn port_forwarding_request(&self, cb: &str) -> (r: (String, Vec<(String, String)>))
        ensures
            r.0@ == self.url@ + "/cgi-bin/luci/admin/settings/pmDisplay"@,
            pairs_view(r.1@) =~= seq![("_"@, cb@)],
    {
        let mut u = self.url.clone();
        u.append("/cgi-bin/luci/admin/settings/pmDisplay");
        let mut query: Vec<(String, String)> = Vec::new();
        query.push((String::from_str("_"), cb.to_owned()));
        (u, query)
    }

    /// The rule-mutation request: endpoint and form for one action on
    /// the rule named `srvname`, with `rule` as the optional payload.
    pub fn set_rule_request(
        &self,
        action: PortForwardingAction,
        srvname: &str,
        rule: Option<&PortForwardingRule>,
        cb: &str,
    ) -> (r: (String, Vec<(String, String)>))
        ensures
            r.0@ == self.url@ + "/cgi-bin/luci/admin/settings/pmSetSingle"@,
            pairs_view(r.1@) =~= set_rule_fields(
                self.token@,
                action,
                srvname@,
                match rule {
                    Some(ru) => Some(ru@),
                    None => None,
                },
                cb@,
            ),
    {
        let mut u = self.url.clone();
        u.append("/cgi-bin/luci/admin/settings/pmSetSingle");
        let mut form: Vec<(String, String)> = Vec::new();
        form.push((String::from_str("srvname"), srvname.to_owned()));
        form.push((String::from_str("token"), self.token.clone()));
        form.push((String::from_str("op"), action.as_str().to_owned()));
        form.push((String::from_str("_"), cb.to_owned()));
        match rule {
            None => (u, form),
            Some(ru) => {
                form.push((String::from_str("client"), ru.client.clone()));
                form.push((String::from_str("protocol"), ru.protocol.clone()));
                form.push((String::from_str("exPort"), u64_to_string(ru.ex_port as u64)));
                form.push((String::from_str("inPort"), u64_to_string(ru.in_port as u64)));
                (u, form)
            },
        }
    }
}

/// The field list of a rule-mutation form: the rule name as `srvname`,
/// the session token, the action's wire token as `op`, the cache buster
/// as `_`, and — when a payload rides along — the payload's client
/// address, protocol, and both ports written in decimal.
pub open spec fn set_rule_fields(
    token: Seq<char>,
    action: PortForwardingAction,
    srvname: Seq<char>,
    rule: Option<RuleModel>,
    cb: Seq<char>,
) -> Seq<(Seq<char>, Seq<char>)> {
    let base = seq![
        ("srvname"@, srvname),
        ("token"@, token),
        ("op"@, action_token(action)),
        ("_"@, cb),
    ];
    match rule {
        None => base,
        Some(m) => base + seq![
            ("client"@, m.client),
            ("protocol"@, m.protocol),
            ("exPort"@, dec_digits(m.ex_port as nat)),
            ("inPort"@, dec_digits(m.in_port as nat)),
        ],
    }
}

} // verus!
