use vstd::prelude::*;

verus! {

/// The gateway snapshot the router returns: LAN and WAN addresses in both
/// IP versions, the device's MAC address, serial number, type, firmware
/// version, and product class. A read-only record with no identity beyond
/// its values.
#[derive(Debug)]
pub struct GatewayInfo {
    pub lan_ip: String,
    pub lan_ipv6: String,
    pub mac: String,
    pub wan_ip: String,
    pub wan_ipv6: String,
    pub product_sn: String,
    pub dev_type: String,
    pub sw_ver: String,
    pub product_cls: String,
}

/// The integer return code of a rule mutation. The router does not
/// document which codes mean success, so the client hands the code to the
/// caller untouched.
#[derive(Clone, Copy, Debug, PartialEq, Eq, Structural)]
pub struct ActionResult {
    pub ret_val: i32,
}

/// The abstract value of a port-forwarding rule: each field as a plain
/// mathematical value.
pub struct RuleModel {
    pub protocol: Seq<char>,
    pub in_port: u16,
    pub enable: u8,
    pub description: Seq<char>,
    pub client: Seq<char>,
    pub ex_port: u16,
}

/// One port-forwarding rule as the router reports it: protocol name,
/// internal and external ports, target client address, enabled flag
/// (0 or 1 on the wire), and the free-text description that the client
/// treats as the rule's identity when updating.
#[derive(Debug)]
pub struct PortForwardingRule {
    pub protocol: String,
    pub in_port: u16,
    pub enable: u8,
    pub description: String,
    pub client: String,
    pub ex_port: u16,
}

impl View for PortForwardingRule {
    type V = RuleModel;

    open spec fn view(&self) -> RuleModel {
        RuleModel {
            protocol: self.protocol@,
            in_port: self.in_port,
            enable: self.enable,
            description: self.description@,
            client: self.client@,
            ex_port: self.ex_port,
        }
    }
}

impl Clone for PortForwardingRule {
    /// A field-for-field copy.
    fn clone(&self) -> (r: Self)
        ensures
            r == *self,
    {
        PortForwardingRule {
            protocol: self.protocol.clone(),
            in_port: self.in_port,
            enable: self.enable,
            description: self.description.clone(),
            client: self.client.clone(),
            ex_port: self.ex_port,
        }
    }
}

/// The abstract values of a sequence of rules, in order.
pub open spec fn rule_views(rs: Seq<PortForwardingRule>) -> Seq<RuleModel> {
    rs.map_values(|r: PortForwardingRule| r@)
}

/// The port-forwarding snapshot the router returns: subnet mask, LAN
/// address, the rule count it reports, and the rules keyed by the
/// router's opaque ids. Reconstructed fresh on every fetch.
#[derive(Debug)]
pub struct PortForwardingData {
    pub mask: String,
    pub lan_ip: String,
    pub count: u32,
    pub rules: Vec<(String, PortForwardingRule)>,
}

impl PortForwardingData {
    /// The router assigns every rule a distinct id, so a faithful
    /// snapshot holds each key once.
    pub open spec fn wf(&self) -> bool {
        forall|i: int, j: int|
            0 <= i < j < self.rules@.len() ==> self.rules@[i].0@ != self.rules@[j].0@
    }

    /// The rules of the snapshot with the router's opaque ids dropped,
    /// in the order the snapshot holds them.
    pub fn rules_list(&self) -> (r: Vec<PortForwardingRule>)
        ensures
            r@.len() == self.rules@.len(),
            forall|k: int| 0 <= k < r@.len() ==> r@[k]@ == self.rules@[k].1@,
    {
        let mut out: Vec<PortForwardingRule> = Vec::new();
        let mut i: usize = 0;
        while i < self.rules.len()
            invariant
                i <= self.rules@.len(),
                out@.len() == i,
                forall|k: int| 0 <= k < i ==> out@[k]@ == self.rules@[k].1@,
            decreases self.rules@.len() - i,
        {
            out.push(self.rules[i].1.clone());
            i += 1;
        }
        out
    }
}

} // verus!
