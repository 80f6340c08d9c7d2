use reaction_roles::member::Member;

#[test]
fn granting_twice_leaves_role_held_exactly_once() {
    let mut m = Member::new();
    m.grant(7);
    m.grant(7);
    assert!(m.has_role(7));
    assert_eq!(m.role_ids.iter().filter(|&&id| id == 7).count(), 1);
}

#[test]
fn grant_then_revoke_round_trip() {
    let mut m = Member::new();
    m.grant(7);
    m.grant(9);
    m.revoke(7);
    assert!(!m.has_role(7));
    assert!(m.has_role(9));
}

#[test]
fn revoking_a_role_not_held_changes_nothing() {
    let mut m = Member::new();
    m.grant(9);
    m.revoke(7);
    assert!(m.has_role(9));
    assert_eq!(m.role_ids.len(), 1);
}
