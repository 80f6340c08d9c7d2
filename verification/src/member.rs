use vstd::prelude::*;

verus! {

broadcast use vstd::seq_lib::group_seq_properties;

/// A member's guild-scoped profile: the set of role identifiers held,
/// each held at most once.
#[derive(Debug, Clone)]
pub struct Member {
    pub role_ids: Vec<u64>,
}

impl Member {
    /// Role lists hold each identifier at most once.
    pub open spec fn wf(self) -> bool {
        self.role_ids@.no_duplicates()
    }

    /// The member's role set.
    pub open spec fn roles(self) -> Set<u64> {
        Set::new(|id: u64| self.role_ids@.contains(id))
    }

    pub fn new() -> (m: Member)
        ensures
            m.wf(),
            m.roles() == Set::<u64>::empty(),
    {
        let m = Member { role_ids: Vec::new() };
        proof {
            assert(m.roles() =~= Set::<u64>::empty());
        }
        m
    }

    pub fn has_role(&self, role_id: u64) -> (b: bool)
        ensures
            b == self.roles().contains(role_id),
    {
        let n = self.role_ids.len();
        let mut i: usize = 0;
        while i < n
            invariant
                n == self.role_ids@.len(),
                i <= n,
                forall|k: int| 0 <= k < i ==> self.role_ids@[k] != role_id,
            decreases n - i,
        {
            if self.role_ids[i] == role_id {
                return true;
            }
            i = i + 1;
        }
        proof {
            assert(!self.role_ids@.contains(role_id));
        }
        false
    }

    /// Grants the role: afterwards the role set is the old set with
    /// `role_id` added, and the identifier is held exactly once — granting
    /// an already-held role changes nothing and is no error.
    pub fn grant(&mut self, role_id: u64)
        requires
            old(self).wf(),
        ensures
            final(self).wf(),
            final(self).roles() == old(self).roles().insert(role_id),
            final(self).role_ids@.to_multiset().count(role_id) == 1,
    {
        let held = self.has_role(role_id);
        if !held {
            self.role_ids.push(role_id);
        }
        proof {
            if !held {
                assert(self.role_ids@.drop_last() =~= old(self).role_ids@);
                assert(self.roles() =~= old(self).roles().insert(role_id));
            } else {
                assert(self.roles() =~= old(self).roles().insert(role_id));
            }
            self.role_ids@.lemma_multiset_has_no_duplicates();
            assert(self.role_ids@.contains(role_id));
            self.role_ids@.to_multiset_ensures();
        }
    }

    /// Revokes the role: afterwards the role set is the old set with
    /// `role_id` removed, and the identifier is no longer held — revoking a
    /// role not held changes nothing and is no error.
    pub fn revoke(&mut self, role_id: u64)
        requires
            old(self).wf(),
        ensures
            final(self).wf(),
            final(self).roles() == old(self).roles().remove(role_id),
            !final(self).roles().contains(role_id),
    {
        let n = self.role_ids.len();
        let mut kept: Vec<u64> = Vec::new();
        let mut i: usize = 0;
        while i < n
            invariant
                n == self.role_ids@.len(),
                i <= n,
                self == old(self),
                old(self).wf(),
                kept@.no_duplicates(),
                forall|x: u64| #[trigger] kept@.contains(x) <==> (self.role_ids@.take(
                    i as int,
                ).contains(x) && x != role_id),
            decreases n - i,
        {
            let v = self.role_ids[i];
            proof {
                assert(self.role_ids@.take(i + 1).drop_last() =~= self.role_ids@.take(i as int));
                if kept@.contains(v) {
                    let ghost j = choose|j: int|
                        0 <= j < i && self.role_ids@.take(i as int)[j] == v;
                    assert(self.role_ids@[j] == self.role_ids@[i as int]);
                }
            }
            if v != role_id {
                let ghost kept0 = kept@;
                kept.push(v);
                proof {
                    assert(kept@.drop_last() =~= kept0);
                    assert forall|x: u64| #[trigger] kept@.contains(x) implies (
                    self.role_ids@.take(i + 1).contains(x) && x != role_id) by {
                        if x == v {
                            assert(self.role_ids@.take(i + 1).last() == v);
                        }
                    }
                    assert forall|x: u64|
                        self.role_ids@.take(i + 1).contains(x) && x != role_id implies #[trigger] kept@.contains(
                        x,
                    ) by {
                        if x != v {
                            assert(self.role_ids@.take(i as int).contains(x));
                        }
                    }
                }
            } else {
                proof {
                    assert forall|x: u64| #[trigger] kept@.contains(x) implies (
                    self.role_ids@.take(i + 1).contains(x) && x != role_id) by {}
                    assert forall|x: u64|
                        self.role_ids@.take(i + 1).contains(x) && x != role_id implies #[trigger] kept@.contains(
                        x,
                    ) by {
                        assert(self.role_ids@.take(i as int).contains(x));
                    }
                }
            }
            i = i + 1;
        }
        proof {
            assert(self.role_ids@.take(n as int) =~= self.role_ids@);
        }
        self.role_ids = kept;
        proof {
            assert(self.roles() =~= old(self).roles().remove(role_id));
        }
    }
}

/// Idempotence of granting: adding the same role identifier a second time
/// leaves the role set exactly as after the first time.
pub proof fn lemma_grant_idempotent(roles: Set<u64>, role_id: u64)
    ensures
        roles.insert(role_id).insert(role_id) == roles.insert(role_id),
{
    assert(roles.insert(role_id).insert(role_id) =~= roles.insert(role_id));
}

} // verus!
