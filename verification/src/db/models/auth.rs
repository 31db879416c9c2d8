//! API key roles and their permissions.
use crate::datetime::UtcDateTime;
use crate::text::str_eq;
use vstd::prelude::*;

verus! {

/// Permission role assigned to an API key.
#[derive(Debug, Clone, Copy, PartialEq, Eq, Structural)]
pub enum ApiKeyRole {
    Admin,
    Operator,
    Viewer,
    Agent,
}

impl ApiKeyRole {
    /// The text form of this value.
    pub open spec fn spec_as_str(self) -> Seq<char> {
        match self {
            ApiKeyRole::Admin => "admin"@,
            ApiKeyRole::Operator => "operator"@,
            ApiKeyRole::Viewer => "viewer"@,
            ApiKeyRole::Agent => "agent"@,
        }
    }

    /// The value whose text form (or accepted alias) is `s`, if any.
    pub open spec fn spec_from_str(s: Seq<char>) -> Option<ApiKeyRole> {
        if s == "admin"@ {
            Some(ApiKeyRole::Admin)
        } else if s == "operator"@ {
            Some(ApiKeyRole::Operator)
        } else if s == "viewer"@ {
            Some(ApiKeyRole::Viewer)
        } else if s == "agent"@ {
            Some(ApiKeyRole::Agent)
        } else {
            None
        }
    }

    /// Returns the string representation of this value.
    pub fn as_str(&self) -> (r: &'static str)
        ensures
            r@ == self.spec_as_str(),
    {
        match self {
            ApiKeyRole::Admin => "admin",
            ApiKeyRole::Operator => "operator",
            ApiKeyRole::Viewer => "viewer",
            ApiKeyRole::Agent => "agent",
        }
    }

    /// Parses a string into a `ApiKeyRole`.
    #[allow(clippy::should_implement_trait)]
    pub fn from_str(s: &str) -> (r: Option<Self>)
        ensures
            r == Self::spec_from_str(s@),
    {
        if str_eq(s, "admin") {
            return Some(ApiKeyRole::Admin);
        }
        if str_eq(s, "operator") {
            return Some(ApiKeyRole::Operator);
        }
        if str_eq(s, "viewer") {
            return Some(ApiKeyRole::Viewer);
        }
        if str_eq(s, "agent") {
            return Some(ApiKeyRole::Agent);
        }
        None
    }
}

impl ApiKeyRole {
    /// Returns `true` if this role has write access (Admin or Operator).
    pub fn can_write(&self) -> (r: bool)
        ensures
            r == (*self == ApiKeyRole::Admin || *self == ApiKeyRole::Operator),
    {
        matches!(self, ApiKeyRole::Admin | ApiKeyRole::Operator)
    }

    /// Returns `true` if this role can create and revoke API keys.
    pub fn can_manage_keys(&self) -> (r: bool)
        ensures
            r == (*self == ApiKeyRole::Admin),
    {
        matches!(self, ApiKeyRole::Admin)
    }

    /// Returns `true` if this is an agent-scoped key.
    pub fn is_agent(&self) -> (r: bool)
        ensures
            r == (*self == ApiKeyRole::Agent),
    {
        matches!(self, ApiKeyRole::Agent)
    }
}

/// An API key used for authenticating requests to the controller.
#[derive(Debug, Clone)]
pub struct ApiKey {
    /// The key's identifier (the 128 bits of its UUID).
    pub id: u128,
    pub key_prefix: String,
    pub key_hash: String,
    pub name: String,
    pub role: ApiKeyRole,
    pub created_at: UtcDateTime,
    pub last_used_at: Option<UtcDateTime>,
    pub active: bool,
    /// If set, restricts this key to only see/manage jobs in these groups.
    /// None means no restriction (all groups visible). Admin keys ignore this.
    pub allowed_groups: Option<Vec<String>>,
    /// If set, restricts this key to requests from these IP addresses/CIDRs.
    pub ip_allowlist: Option<Vec<String>>,
    /// If set, the key expires at this time and can no longer authenticate.
    pub expires_at: Option<UtcDateTime>,
}

/// The group a job without an explicit group belongs to.
pub open spec fn group_or_default(group: Option<Seq<char>>) -> Seq<char> {
    match group {
        Some(g) => g,
        None => "Default"@,
    }
}

/// Whether a key with `role` and `allowed` groups may access jobs of `group`.
pub open spec fn spec_can_access_group(
    role: ApiKeyRole,
    allowed: Option<Seq<Seq<char>>>,
    group: Option<Seq<char>>,
) -> bool {
    role == ApiKeyRole::Admin || match allowed {
        None => true,
        Some(gs) => gs.contains(group_or_default(group)),
    }
}

/// The views of a list of strings.
pub open spec fn views(v: Seq<String>) -> Seq<Seq<char>> {
    v.map_values(|s: String| s@)
}

impl ApiKey {
    /// Returns true if this key can access jobs in the given group.
    /// Admin keys and keys with no group restriction can access all groups.
    pub fn can_access_group(&self, group: Option<&str>) -> (r: bool)
        ensures
            r == spec_can_access_group(
                self.role,
                match self.allowed_groups {
                    Some(gs) => Some(views(gs@)),
                    None => None,
                },
                match group {
                    Some(g) => Some(g@),
                    None => None,
                },
            ),
    {
        if self.role.can_manage_keys() {
            return true;
        }
        match &self.allowed_groups {
            None => true,
            Some(groups) => {
                let g = match group {
                    Some(g) => g,
                    None => "Default",
                };
                let ghost gv = g@;
                let mut i: usize = 0;
                #[verifier::loop_isolation(false)]
                while i < groups.len()
                    invariant
                        i <= groups.len(),
                        forall|k: int| 0 <= k < i ==> groups@[k]@ != gv,
                        gv == g@,
                    decreases groups.len() - i,
                {
                    if str_eq(groups[i].as_str(), g) {
                        assert(views(groups@)[i as int] == gv);
                        return true;
                    }
                    i = i + 1;
                }
                assert(!views(groups@).contains(gv)) by {
                    if views(groups@).contains(gv) {
                        let k = choose|k: int| 0 <= k < views(groups@).len() && views(groups@)[k] == gv;
                        assert(groups@[k]@ == gv);
                    }
                }
                false
            },
        }
    }
}

/// Reading back the text form of any `ApiKeyRole` gives the same value.
pub proof fn lemma_api_key_role_round_trip(x: ApiKeyRole)
    ensures
        ApiKeyRole::spec_from_str(x.spec_as_str()) == Some(x),
{
    reveal_strlit("admin");
    reveal_strlit("agent");
    reveal_strlit("operator");
    reveal_strlit("viewer");
    assert("admin"@.len() == 5);
    assert("agent"@.len() == 5);
    assert("operator"@.len() == 8);
    assert("viewer"@.len() == 6);
    assert("admin"@[1] == 'd');
    assert("agent"@[1] == 'g');
}
} // verus!
