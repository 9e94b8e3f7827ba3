use flexstore::auth::{Claims, Permission};
use flexstore::text::{like_match, str_eq, str_lt};

fn claims_with(perms: Vec<Permission>) -> Claims {
    Claims {
        sub: "user-1".to_string(),
        company: "acme".to_string(),
        exp: 0,
        permissions: perms,
    }
}

#[test]
fn permission_round_trip() {
    let p = Permission::from_string("read:entries:any").unwrap();
    assert_eq!(p.action, "read");
    assert_eq!(p.resource, "entries");
    assert_eq!(p.scope, "any");
    assert_eq!(p.to_string(), "read:entries:any");
}

#[test]
fn permission_rejects_other_shapes() {
    assert!(Permission::from_string("read:entries").is_none());
    assert!(Permission::from_string("read:entries:any:extra").is_none());
    assert!(Permission::from_string("noscolons").is_none());
    assert!(Permission::from_string("").is_none());
    // Empty parts are allowed as long as there are exactly two colons.
    let p = Permission::from_string("a::c").unwrap();
    assert_eq!(p.resource, "");
}

#[test]
fn has_permission_accepts_any_or_owned_scope() {
    let c = claims_with(vec![
        Permission::new("read", "entries", "owned"),
        Permission::new("write", "entries", "any"),
    ]);
    assert!(c.has_permission("read", "entries"));
    assert!(c.has_permission("write", "entries"));
    assert!(!c.has_permission("delete", "entries"));

    // A scope other than "any"/"owned" does not satisfy the plain check.
    let c = claims_with(vec![Permission::new("read", "entries", "team")]);
    assert!(!c.has_permission("read", "entries"));
    assert!(c.has_permission_with_scope("read", "entries", "team"));
    assert!(!c.has_permission_with_scope("read", "entries", "any"));
}

#[test]
fn has_any_permission_checks_each_pair() {
    let c = claims_with(vec![Permission::new("read", "entries", "any")]);
    let pairs = vec![
        ("delete".to_string(), "entries".to_string()),
        ("read".to_string(), "entries".to_string()),
    ];
    assert!(c.has_any_permission(&pairs));
    let pairs = vec![("delete".to_string(), "entries".to_string())];
    assert!(!c.has_any_permission(&pairs));

    let triples = vec![(
        "read".to_string(),
        "entries".to_string(),
        "any".to_string(),
    )];
    assert!(c.has_any_permission_with_scope(&triples));
    let triples = vec![(
        "read".to_string(),
        "entries".to_string(),
        "owned".to_string(),
    )];
    assert!(!c.has_any_permission_with_scope(&triples));
}

#[test]
fn default_claims_are_empty() {
    let c = Claims::default();
    assert_eq!(c.sub, "");
    assert_eq!(c.exp, 0);
    assert!(c.permissions.is_empty());
}

#[test]
fn string_primitives() {
    assert!(str_eq("abc", "abc"));
    assert!(!str_eq("abc", "abd"));
    assert!(str_lt("2024-01", "2024-06"));
    assert!(!str_lt("2024-06", "2024-01"));
    assert!(str_lt("abc", "abcd"));

    assert!(like_match("%ell%", "hello"));
    assert!(like_match("h_llo", "hello"));
    assert!(!like_match("h_llo", "heello"));
    assert!(like_match("hello%", "hello world"));
    assert!(!like_match("%world", "world peace"));
    assert!(like_match("%", ""));
    assert!(!like_match("", "x"));
}
