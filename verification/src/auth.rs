//! Structured permissions and token claims.
//!
//! Token decoding and signature verification live with the transport layer;
//! this module holds the permission model that authorization decisions are
//! made against.

use vstd::prelude::*;
use vstd::string::*;
use crate::text::str_eq;

verus! {

/// Structured permission with action, resource, and scope.
#[derive(Debug, Clone, PartialEq, Eq)]
pub struct Permission {
    pub action: String,
    pub resource: String,
    pub scope: String,
}

/// Positions `i < j` are colons and every other character of `s` is not.
pub open spec fn colon_positions(s: Seq<char>, i: int, j: int) -> bool {
    &&& 0 <= i < j < s.len()
    &&& s[i] == ':'
    &&& s[j] == ':'
    &&& forall|k: int| 0 <= k < s.len() && k != i && k != j ==> s[k] != ':'
}

/// The "action:resource:scope" shape: exactly two colons.
pub open spec fn exactly_two_colons(s: Seq<char>) -> bool {
    exists|i: int, j: int| colon_positions(s, i, j)
}

/// The two colons at `i` and `j` split `s` into the three parts of `p`.
pub open spec fn splits_permission(s: Seq<char>, i: int, j: int, p: Permission) -> bool {
    &&& colon_positions(s, i, j)
    &&& p.action@ == s.subrange(0, i)
    &&& p.resource@ == s.subrange(i + 1, j)
    &&& p.scope@ == s.subrange(j + 1, s.len() as int)
}

/// `p` is the parse of `s` under the "action:resource:scope" format.
pub open spec fn parses_to(s: Seq<char>, p: Permission) -> bool {
    exists|i: int, j: int| splits_permission(s, i, j, p)
}

impl Permission {
    /// Builds a permission from its three parts.
    pub fn new(action: &str, resource: &str, scope: &str) -> (r: Self)
        ensures
            r.action@ == action@,
            r.resource@ == resource@,
            r.scope@ == scope@,
    {
        Permission {
            action: action.to_owned(),
            resource: resource.to_owned(),
            scope: scope.to_owned(),
        }
    }

    /// Parses the "action:resource:scope" format; any other number of colons
    /// is rejected.
    pub fn from_string(permission_str: &str) -> (r: Option<Permission>)
        ensures
            r is Some == exactly_two_colons(permission_str@),
            r is Some ==> parses_to(permission_str@, r->0),
    {
        let n = permission_str.unicode_len();
        let mut idx: usize = 0;
        let mut cnt: usize = 0;
        let mut p1: usize = 0;
        let mut p2: usize = 0;
        while idx < n
            invariant
                n == permission_str@.len(),
                idx <= n,
                cnt <= 3,
                cnt == 0 ==> forall|k: int| 0 <= k < idx ==> permission_str@[k] != ':',
                cnt == 1 ==> p1 < idx && permission_str@[p1 as int] == ':' && forall|k: int|
                    0 <= k < idx && k != p1 ==> permission_str@[k] != ':',
                cnt == 2 ==> p1 < p2 < idx && permission_str@[p1 as int] == ':'
                    && permission_str@[p2 as int] == ':' && forall|k: int|
                    0 <= k < idx && k != p1 && k != p2 ==> permission_str@[k] != ':',
                cnt == 3 ==> exists|a: int, b: int, c: int|
                    0 <= a < b && b < c < idx && permission_str@[a] == ':'
                        && permission_str@[b] == ':' && permission_str@[c] == ':',
            decreases n - idx,
        {
            let c = permission_str.get_char(idx);
            if c == ':' {
                if cnt == 0 {
                    p1 = idx;
                    cnt = 1;
                } else if cnt == 1 {
                    p2 = idx;
                    cnt = 2;
                } else if cnt == 2 {
                    proof {
                        assert((p1 as int) < (p2 as int) && (p2 as int) < (idx as int)
                            && permission_str@[p1 as int] == ':' && permission_str@[p2 as int]
                            == ':' && permission_str@[idx as int] == ':');
                    }
                    cnt = 3;
                }
            }
            idx = idx + 1;
        }
        if cnt == 2 {
            let action = permission_str.substring_char(0, p1);
            let resource = permission_str.substring_char(p1 + 1, p2);
            let scope = permission_str.substring_char(p2 + 1, n);
            let p = Permission {
                action: action.to_owned(),
                resource: resource.to_owned(),
                scope: scope.to_owned(),
            };
            proof {
                assert(splits_permission(permission_str@, p1 as int, p2 as int, p));
                assert(parses_to(permission_str@, p));
                assert(colon_positions(permission_str@, p1 as int, p2 as int));
            }
            Some(p)
        } else {
            proof {
                assert forall|i: int, j: int| !colon_positions(permission_str@, i, j) by {
                    if colon_positions(permission_str@, i, j) {
                        if cnt == 3 {
                            let (a, b, c) = choose|a: int, b: int, c: int|
                                0 <= a < b && b < c < n && permission_str@[a] == ':'
                                    && permission_str@[b] == ':' && permission_str@[c] == ':';
                            assert(a == i || a == j);
                            assert(b == i || b == j);
                            assert(c == i || c == j);
                        }
                    }
                }
            }
            None
        }
    }

    /// Writes the permission back in the "action:resource:scope" format.
    pub fn to_string(&self) -> (r: String)
        ensures
            r@ == self.action@ + ":"@ + self.resource@ + ":"@ + self.scope@,
    {
        let mut r = String::new();
        r.append(self.action.as_str());
        r.append(":");
        r.append(self.resource.as_str());
        r.append(":");
        r.append(self.scope.as_str());
        proof {
            assert(r@ =~= self.action@ + ":"@ + self.resource@ + ":"@ + self.scope@);
        }
        r
    }
}

/// Whether the permission list holds an entry equal, part for part, to the
/// given action, resource and scope.
pub open spec fn has_perm(
    perms: Seq<Permission>,
    action: Seq<char>,
    resource: Seq<char>,
    scope: Seq<char>,
) -> bool {
    exists|k: int|
        0 <= k < perms.len() && perms[k].action@ == action && perms[k].resource@ == resource
            && perms[k].scope@ == scope
}

/// The claims carried by an access token.
#[derive(Debug, Clone)]
pub struct Claims {
    pub sub: String,
    pub company: String,
    pub exp: usize,
    pub permissions: Vec<Permission>,
}

impl Default for Claims {
    /// An empty set of claims: no subject, no permissions.
    fn default() -> (r: Self)
        ensures
            r.sub@ == Seq::<char>::empty(),
            r.company@ == Seq::<char>::empty(),
            r.exp == 0,
            r.permissions@.len() == 0,
    {
        Claims { sub: String::new(), company: String::new(), exp: 0, permissions: Vec::new() }
    }
}

impl Claims {
    /// Whether the user holds the permission under either the "any" or the
    /// "owned" scope.
    pub fn has_permission(&self, action: &str, resource: &str) -> (r: bool)
        ensures
            r == (has_perm(self.permissions@, action@, resource@, "any"@) || has_perm(
                self.permissions@,
                action@,
                resource@,
                "owned"@,
            )),
    {
        let n = self.permissions.len();
        let mut k: usize = 0;
        while k < n
            invariant
                n == self.permissions@.len(),
                k <= n,
                forall|m: int| #![trigger self.permissions@[m]]
                    0 <= m < k ==> !(self.permissions@[m].action@ == action@
                        && self.permissions@[m].resource@ == resource@
                        && (self.permissions@[m].scope@ == "any"@ || self.permissions@[m].scope@
                        == "owned"@)),
            decreases n - k,
        {
            let p = &self.permissions[k];
            if str_eq(p.action.as_str(), action) && str_eq(p.resource.as_str(), resource) && (
            str_eq(p.scope.as_str(), "any") || str_eq(p.scope.as_str(), "owned")) {
                return true;
            }
            k = k + 1;
        }
        false
    }

    /// Whether the user holds the permission under exactly the given scope.
    pub fn has_permission_with_scope(&self, action: &str, resource: &str, scope: &str) -> (r:
        bool)
        ensures
            r == has_perm(self.permissions@, action@, resource@, scope@),
    {
        let n = self.permissions.len();
        let mut k: usize = 0;
        while k < n
            invariant
                n == self.permissions@.len(),
                k <= n,
                forall|m: int| #![trigger self.permissions@[m]]
                    0 <= m < k ==> !(self.permissions@[m].action@ == action@
                        && self.permissions@[m].resource@ == resource@
                        && self.permissions@[m].scope@ == scope@),
            decreases n - k,
        {
            let p = &self.permissions[k];
            if str_eq(p.action.as_str(), action) && str_eq(p.resource.as_str(), resource)
                && str_eq(p.scope.as_str(), scope) {
                return true;
            }
            k = k + 1;
        }
        false
    }

    /// Whether the user holds any of the listed (action, resource) pairs,
    /// under either the "any" or the "owned" scope.
    pub fn has_any_permission(&self, permissions: &[(String, String)]) -> (r: bool)
        ensures
            r == exists|k: int|
                0 <= k < permissions@.len() && (has_perm(
                    self.permissions@,
                    permissions@[k].0@,
                    permissions@[k].1@,
                    "any"@,
                ) || has_perm(self.permissions@, permissions@[k].0@, permissions@[k].1@, "owned"@)),
    {
        let n = permissions.len();
        let mut k: usize = 0;
        while k < n
            invariant
                n == permissions@.len(),
                k <= n,
                forall|m: int| #![trigger permissions@[m]]
                    0 <= m < k ==> !(has_perm(
                        self.permissions@,
                        permissions@[m].0@,
                        permissions@[m].1@,
                        "any"@,
                    ) || has_perm(self.permissions@, permissions@[m].0@, permissions@[m].1@, "owned"@)),
            decreases n - k,
        {
            let pair = &permissions[k];
            if self.has_permission(pair.0.as_str(), pair.1.as_str()) {
                return true;
            }
            k = k + 1;
        }
        false
    }

    /// Whether the user holds any of the listed (action, resource, scope)
    /// triples, scope compared exactly.
    pub fn has_any_permission_with_scope(&self, permissions: &[(String, String, String)]) -> (r:
        bool)
        ensures
            r == exists|k: int|
                0 <= k < permissions@.len() && has_perm(
                    self.permissions@,
                    permissions@[k].0@,
                    permissions@[k].1@,
                    permissions@[k].2@,
                ),
    {
        let n = permissions.len();
        let mut k: usize = 0;
        while k < n
            invariant
                n == permissions@.len(),
                k <= n,
                forall|m: int| #![trigger permissions@[m]]
                    0 <= m < k ==> !has_perm(
                        self.permissions@,
                        permissions@[m].0@,
                        permissions@[m].1@,
                        permissions@[m].2@,
                    ),
            decreases n - k,
        {
            let triple = &permissions[k];
            if self.has_permission_with_scope(
                triple.0.as_str(),
                triple.1.as_str(),
                triple.2.as_str(),
            ) {
                return true;
            }
            k = k + 1;
        }
        false
    }
}

} // verus!
