use vstd::prelude::*;

verus! {

/// One of the four operations the router's rule-mutation endpoint accepts.
#[derive(Clone, Copy, Debug, PartialEq, Eq, Structural)]
pub enum PortForwardingAction {
    Add,
    Enable,
    Disable,
    Delete,
}

/// The wire token of an action: the value the client sends as the `op`
/// form field of a rule mutation.
pub open spec fn action_token(a: PortForwardingAction) -> Seq<char> {
    match a {
        PortForwardingAction::Add => "add"@,
        PortForwardingAction::Enable => "enable"@,
        PortForwardingAction::Disable => "disable"@,
        PortForwardingAction::Delete => "del"@,
    }
}

impl PortForwardingAction {
    /// The fixed lowercase wire token of this action. `Add`, `Enable`,
    /// `Disable` and `Delete` map one-to-one to `"add"`, `"enable"`,
    /// `"disable"` and `"del"`; the enum is closed, so no other mapping
    /// is reachable.
    pub fn as_str(&self) -> (r: &'static str)
        ensures
            r@ == action_token(*self),
            *self is Add ==> r@ == "add"@,
            *self is Enable ==> r@ == "enable"@,
            *self is Disable ==> r@ == "disable"@,
            *self is Delete ==> r@ == "del"@,
    {
        match self {
            PortForwardingAction::Add => "add",
            PortForwardingAction::Enable => "enable",
            PortForwardingAction::Disable => "disable",
            PortForwardingAction::Delete => "del",
        }
    }
}

} // verus!
