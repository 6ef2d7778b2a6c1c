//! The caller of a request, as its transport asserts it.

use vstd::prelude::*;

use crate::text::{same_text, texts};

verus! {

/// Claim of an administrative caller.
pub const CLAIM_ADMIN: &'static str = "admin";

/// A caller that a transport has authenticated. It is passed on unchanged;
/// only the plugins that own data read it, to scope that data.
#[derive(Debug, Clone, PartialEq, Eq)]
pub struct Actor {
    /// Stable id of the user.
    pub user_id: String,
    /// Claims that the transport asserts.
    pub claims: Vec<String>,
    /// Tenant of the user, where there is one.
    pub tenant_id: Option<String>,
}

impl Default for Actor {
    fn default() -> (r: Self)
        ensures
            r.user_id@ == Seq::<char>::empty(),
            r.claims@.len() == 0,
            r.tenant_id is None,
    {
        Actor::new(String::new())
    }
}

impl Actor {
    /// The caller with this id, without claims and tenant.
    pub fn new(user_id: String) -> (r: Self)
        ensures
            r.user_id == user_id,
            r.claims@.len() == 0,
            r.tenant_id is None,
    {
        Actor { user_id, claims: Vec::new(), tenant_id: None }
    }

    /// Whether one of the claims is [`CLAIM_ADMIN`].
    pub open spec fn claims_admin(self) -> bool {
        texts(self.claims@).contains(CLAIM_ADMIN@)
    }

    /// Whether the transport asserts [`CLAIM_ADMIN`], in exactly that spelling.
    pub fn is_admin(&self) -> (r: bool)
        ensures
            r == texts(self.claims@).contains(CLAIM_ADMIN@),
            r == self.claims_admin(),
    {
        let mut i: usize = 0;
        while i < self.claims.len()
            invariant
                i <= self.claims.len(),
                forall|j: int| 0 <= j < i ==> texts(self.claims@)[j] != CLAIM_ADMIN@,
            decreases self.claims.len() - i,
        {
            if same_text(self.claims[i].as_str(), CLAIM_ADMIN) {
                proof {
                    assert(texts(self.claims@)[i as int] == CLAIM_ADMIN@);
                }
                return true;
            }
            proof {
                assert(texts(self.claims@)[i as int] == self.claims@[i as int]@);
            }
            i += 1;
        }
        proof {
            assert(!texts(self.claims@).contains(CLAIM_ADMIN@));
        }
        false
    }
}

/// One claim makes an admin, wherever it stands among the others; who has no such
/// claim is none.
pub proof fn one_claim_makes_an_admin(actor: Actor, i: int)
    ensures
        0 <= i < actor.claims@.len() && actor.claims@[i]@ == CLAIM_ADMIN@ ==> actor.claims_admin(),
        (forall|j: int| 0 <= j < actor.claims@.len() ==> (#[trigger] actor.claims@[j])@
            != CLAIM_ADMIN@) ==> !actor.claims_admin(),
{
    let claims = texts(actor.claims@);
    if 0 <= i < actor.claims@.len() {
        assert(claims[i] == actor.claims@[i]@);
    }
    if actor.claims_admin() {
        let j = claims.index_of(CLAIM_ADMIN@);
        assert(claims[j] == actor.claims@[j]@);
    }
}

} // verus!
