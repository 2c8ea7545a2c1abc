//! Auth profiles: the keys among which the requests to one provider rotate.

use vstd::prelude::*;

verus! {

/// One set of credentials for a provider.
#[derive(Debug)]
pub struct AuthProfile {
    /// Identifies the profile.
    pub id: String,
    /// Name shown to the user.
    pub label: String,
    /// The API key.
    pub api_key: String,
    /// Base URL that takes the place of the provider's, if there is one.
    pub base_url: Option<String>,
    /// Whether the profile takes part in the rotation.
    pub enabled: bool,
}

impl AuthProfile {
    /// An enabled profile.
    pub fn new(id: String, label: String, api_key: String, base_url: Option<String>) -> (r: Self)
        ensures
            r == (AuthProfile { id, label, api_key, base_url, enabled: true }),
    {
        AuthProfile { id, label, api_key, base_url, enabled: true }
    }
}

impl Clone for AuthProfile {
    fn clone(&self) -> (r: Self)
        ensures
            r == *self,
    {
        AuthProfile {
            id: self.id.clone(),
            label: self.label.clone(),
            api_key: self.api_key.clone(),
            base_url: match self.base_url {
                Some(ref url) => Some(url.clone()),
                None => None,
            },
            enabled: self.enabled,
        }
    }
}

/// A provider and its auth profiles, in the order of the rotation.
#[derive(Debug)]
pub struct ProviderConfig {
    /// Identifies the provider.
    pub id: String,
    /// The profiles, in the order of the rotation.
    pub auth_profiles: Vec<AuthProfile>,
}

impl ProviderConfig {
    /// The enabled profiles, in the order of the rotation.
    pub open spec fn enabled_profiles(self) -> Seq<AuthProfile> {
        self.auth_profiles@.filter(|p: AuthProfile| p.enabled)
    }

    /// The profiles that take part in the rotation.
    pub fn effective_profiles(&self) -> (r: Vec<AuthProfile>)
        ensures
            r@ == self.enabled_profiles(),
    {
        let ghost keep = |p: AuthProfile| p.enabled;
        let all = &self.auth_profiles;
        let mut r: Vec<AuthProfile> = Vec::new();
        let mut i: usize = 0;
        while i < all.len()
            invariant
                i <= all.len(),
                keep == (|p: AuthProfile| p.enabled),
                r@ == all@.take(i as int).filter(keep),
            decreases all.len() - i,
        {
            reveal(Seq::filter);
            assert(all@.take(i + 1).drop_last() =~= all@.take(i as int));
            if all[i].enabled {
                r.push(all[i].clone());
            }
            i += 1;
        }
        assert(all@.take(i as int) =~= all@);
        r
    }
}

// ── Laws ─────────────────────────────────────────────────────────

/// An enabled profile takes part in the rotation, behind those before it; another does not.
pub proof fn enabled_profiles_take_part(
    before: ProviderConfig,
    after: ProviderConfig,
    next: AuthProfile,
)
    requires
        after.auth_profiles@ == before.auth_profiles@.push(next),
    ensures
        after.enabled_profiles() == (if next.enabled {
            before.enabled_profiles().push(next)
        } else {
            before.enabled_profiles()
        }),
{
    reveal(Seq::filter);
    assert(after.auth_profiles@.drop_last() =~= before.auth_profiles@);
}

/// Where no profile is enabled none takes part, and where all are all do, in their order.
pub proof fn all_or_none_take_part(provider: ProviderConfig)
    ensures
        (forall|i: int|
            0 <= i < provider.auth_profiles@.len() ==> !(
            #[trigger] provider.auth_profiles@[i]).enabled) ==> provider.enabled_profiles().len()
            == 0,
        (forall|i: int|
            0 <= i < provider.auth_profiles@.len() ==> (
            #[trigger] provider.auth_profiles@[i]).enabled) ==> provider.enabled_profiles()
            == provider.auth_profiles@,
{
    lemma_all_or_none(provider.auth_profiles@, |p: AuthProfile| p.enabled);
}

proof fn lemma_all_or_none(profiles: Seq<AuthProfile>, keep: spec_fn(AuthProfile) -> bool)
    ensures
        (forall|i: int| 0 <= i < profiles.len() ==> !keep(#[trigger] profiles[i]))
            ==> profiles.filter(keep).len() == 0,
        (forall|i: int| 0 <= i < profiles.len() ==> keep(#[trigger] profiles[i]))
            ==> profiles.filter(keep) == profiles,
    decreases profiles.len(),
{
    reveal(Seq::filter);
    if profiles.len() > 0 {
        let front = profiles.drop_last();
        lemma_all_or_none(front, keep);
        assert(forall|i: int| 0 <= i < front.len() ==> #[trigger] front[i] == profiles[i]);
        assert(keep(profiles.last()) == keep(profiles[profiles.len() - 1]));
        if forall|i: int| 0 <= i < profiles.len() ==> !keep(#[trigger] profiles[i]) {
            assert forall|i: int| 0 <= i < front.len() implies !keep(#[trigger] front[i]) by {
                assert(front[i] == profiles[i]);
            }
        }
        if forall|i: int| 0 <= i < profiles.len() ==> keep(#[trigger] profiles[i]) {
            assert forall|i: int| 0 <= i < front.len() implies keep(#[trigger] front[i]) by {
                assert(front[i] == profiles[i]);
            }
            assert(front.push(profiles.last()) =~= profiles);
        }
    }
}

} // verus!
