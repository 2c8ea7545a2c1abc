//! Which auth profile serves the next request of a session.

use vstd::prelude::*;

use crate::failover::classify::FailoverReason;
use crate::failover::cooldown::{
    after_failure, available, failed_profile_rests_for_its_cooldown, ProfileCooldownTracker,
    NANOS_PER_SEC,
};
use crate::failover::profile::{AuthProfile, ProviderConfig};
use crate::failover::sticky::{
    after_get, after_set, profile_of, set_profile_is_found, ProfileStickyMap, Sessions,
    STICKY_MAX_SESSIONS_PER_PROVIDER,
};
use crate::text::same_text;

verus! {

/// The first profile of a list.
pub open spec fn first_of(profiles: Seq<AuthProfile>) -> Option<AuthProfile> {
    if profiles.len() == 0 {
        None
    } else {
        Some(profiles[0])
    }
}

/// Tells the profiles that have the id `id`.
pub open spec fn has_id(id: Seq<char>) -> spec_fn(AuthProfile) -> bool {
    |p: AuthProfile| p.id@ == id
}

/// The first profile that has the id `id`.
pub open spec fn profile_with_id(profiles: Seq<AuthProfile>, id: Seq<char>) -> Option<AuthProfile> {
    first_of(profiles.filter(has_id(id)))
}

/// The profiles that may be used at the time `now`.
pub open spec fn available_profiles(
    profiles: Seq<AuthProfile>,
    rests: Map<Seq<char>, u64>,
    now: u64,
) -> Seq<AuthProfile> {
    profiles.filter(|p: AuthProfile| available(rests, p.id@, now))
}

/// The profile that serves a session whose remembered profile is `sticky`: that one where it is
/// in the rotation and may be used, else the first that may be used.
pub open spec fn selected(
    profiles: Seq<AuthProfile>,
    sticky: Option<Seq<char>>,
    rests: Map<Seq<char>, u64>,
    now: u64,
) -> Option<AuthProfile> {
    let fallback = first_of(available_profiles(profiles, rests, now));
    match sticky {
        Some(id) => match profile_with_id(profiles, id) {
            Some(p) => if available(rests, p.id@, now) {
                Some(p)
            } else {
                fallback
            },
            None => fallback,
        },
        None => fallback,
    }
}

/// Whether `id` is among the tried profiles.
pub open spec fn was_tried(tried: Seq<String>, id: Seq<char>) -> bool {
    exists|i: int| 0 <= i < tried.len() && #[trigger] tried[i]@ == id
}

/// The profile that is tried next: the first that may be used and was not tried.
pub open spec fn next_selected(
    profiles: Seq<AuthProfile>,
    tried: Seq<String>,
    rests: Map<Seq<char>, u64>,
    now: u64,
) -> Option<AuthProfile> {
    first_of(
        available_profiles(profiles, rests, now).filter(
            |p: AuthProfile| !was_tried(tried, p.id@),
        ),
    )
}

/// Filtering a list filters its front first.
proof fn lemma_first_of_filter(
    profiles: Seq<AuthProfile>,
    keep: spec_fn(AuthProfile) -> bool,
    i: int,
)
    requires
        0 <= i <= profiles.len(),
        forall|j: int| 0 <= j < i ==> !keep(#[trigger] profiles[j]),
    ensures
        i == profiles.len() ==> first_of(profiles.filter(keep)) is None,
        i < profiles.len() && keep(profiles[i]) ==> first_of(profiles.filter(keep)) == Some(
            profiles[i],
        ),
    decreases profiles.len(),
{
    reveal(Seq::filter);
    if profiles.len() > 0 {
        let front = profiles.drop_last();
        assert(forall|j: int| 0 <= j < front.len() ==> front[j] == profiles[j]);
        if i < profiles.len() {
            lemma_first_of_filter(front, keep, i);
        } else {
            lemma_first_of_filter(front, keep, i - 1);
        }
    }
}

fn find_by_id(profiles: &Vec<AuthProfile>, id: &str) -> (r: Option<AuthProfile>)
    ensures
        r == profile_with_id(profiles@, id@),
{
    let ghost keep = has_id(id@);
    let mut i: usize = 0;
    while i < profiles.len()
        invariant
            i <= profiles.len(),
            keep == has_id(id@),
            forall|j: int| 0 <= j < i ==> !keep(#[trigger] profiles@[j]),
        decreases profiles.len() - i,
    {
        proof {
            lemma_first_of_filter(profiles@, keep, i as int);
        }
        if same_text(profiles[i].id.as_str(), id) {
            return Some(profiles[i].clone());
        }
        i += 1;
    }
    proof {
        lemma_first_of_filter(profiles@, keep, i as int);
    }
    None
}

fn id_was_tried(tried: &Vec<String>, id: &str) -> (r: bool)
    ensures
        r == was_tried(tried@, id@),
{
    let mut i: usize = 0;
    while i < tried.len()
        invariant
            i <= tried.len(),
            forall|j: int| 0 <= j < i ==> #[trigger] tried@[j]@ != id@,
        decreases tried.len() - i,
    {
        if same_text(tried[i].as_str(), id) {
            return true;
        }
        i += 1;
    }
    false
}

/// Selects the auth profile that serves a request of a session at the time `now`: the one that
/// is remembered for the session where it is in the rotation and does not rest, else the first
/// that does not rest. A remembered session counts as used, unless the provider has no profile
/// in its rotation.
pub fn select_profile(
    provider: &ProviderConfig,
    session_id: &str,
    sticky: &mut ProfileStickyMap,
    cooldowns: &ProfileCooldownTracker,
    now: u64,
) -> (r: Option<AuthProfile>)
    requires
        old(sticky).wf(),
        cooldowns.wf(),
    ensures
        r == selected(
            provider.enabled_profiles(),
            profile_of(old(sticky).sessions(provider.id@), session_id@),
            cooldowns@,
            now,
        ),
        final(sticky).wf(),
        final(sticky).sessions(provider.id@) == (if provider.enabled_profiles().len() == 0 {
            old(sticky).sessions(provider.id@)
        } else {
            after_get(old(sticky).sessions(provider.id@), session_id@)
        }),
        forall|other: Seq<char>|
            other != provider.id@ ==> #[trigger] final(sticky).sessions(other) == old(
                sticky,
            ).sessions(other),
{
    let profiles = provider.effective_profiles();
    if profiles.len() == 0 {
        proof {
            reveal(Seq::filter);
        }
        return None;
    }
    if let Some(sticky_id) = sticky.get(provider.id.as_str(), session_id) {
        if let Some(p) = find_by_id(&profiles, sticky_id.as_str()) {
            if cooldowns.is_available(p.id.as_str(), now) {
                return Some(p);
            }
        }
    }
    let usable = cooldowns.filter_available(&profiles, now);
    if usable.len() == 0 {
        None
    } else {
        Some(usable[0].clone())
    }
}

/// Selects the auth profile that is tried next after a failure at the time `now`: the first that
/// does not rest and was not tried yet.
pub fn next_profile(
    provider: &ProviderConfig,
    tried: &Vec<String>,
    cooldowns: &ProfileCooldownTracker,
    now: u64,
) -> (r: Option<AuthProfile>)
    requires
        cooldowns.wf(),
    ensures
        r == next_selected(provider.enabled_profiles(), tried@, cooldowns@, now),
{
    let profiles = provider.effective_profiles();
    let usable = cooldowns.filter_available(&profiles, now);
    let ghost keep = |p: AuthProfile| !was_tried(tried@, p.id@);
    let mut i: usize = 0;
    while i < usable.len()
        invariant
            i <= usable.len(),
            keep == (|p: AuthProfile| !was_tried(tried@, p.id@)),
            forall|j: int| 0 <= j < i ==> !keep(#[trigger] usable@[j]),
            usable@ == available_profiles(provider.enabled_profiles(), cooldowns@, now),
        decreases usable.len() - i,
    {
        proof {
            lemma_first_of_filter(usable@, keep, i as int);
        }
        if !id_was_tried(tried, usable[i].id.as_str()) {
            return Some(usable[i].clone());
        }
        i += 1;
    }
    proof {
        lemma_first_of_filter(usable@, keep, i as int);
    }
    None
}

// ── Laws ─────────────────────────────────────────────────────────

/// A filtered list holds exactly the items that pass.
proof fn lemma_filter_holds(
    profiles: Seq<AuthProfile>,
    keep: spec_fn(AuthProfile) -> bool,
    p: AuthProfile,
)
    ensures
        profiles.filter(keep).contains(p) <==> profiles.contains(p) && keep(p),
    decreases profiles.len(),
{
    reveal(Seq::filter);
    if profiles.len() > 0 {
        let front = profiles.drop_last();
        let ff = front.filter(keep);
        let f = profiles.filter(keep);
        lemma_filter_holds(front, keep, p);
        if profiles.contains(p) {
            let i = choose|i: int| 0 <= i < profiles.len() && profiles[i] == p;
            if i < front.len() {
                assert(front[i] == p);
            }
        }
        if front.contains(p) {
            let i = choose|i: int| 0 <= i < front.len() && front[i] == p;
            assert(profiles[i] == p);
        }
        if keep(profiles.last()) {
            assert(f == ff.push(profiles.last()));
            if ff.contains(p) {
                let i = choose|i: int| 0 <= i < ff.len() && ff[i] == p;
                assert(f[i] == p);
            }
            assert(f[f.len() - 1] == profiles.last());
            if f.contains(p) {
                let i = choose|i: int| 0 <= i < f.len() && f[i] == p;
                if i < ff.len() {
                    assert(ff[i] == p);
                } else {
                    assert(profiles[profiles.len() - 1] == p);
                }
            }
        } else {
            assert(f == ff);
        }
    }
}

proof fn lemma_profile_with_id(profiles: Seq<AuthProfile>, id: Seq<char>, p: AuthProfile)
    ensures
        profile_with_id(profiles, id) matches Some(found) ==> profiles.contains(found) && found.id@
            == id,
        profiles.contains(p) && p.id@ == id ==> profile_with_id(profiles, id) is Some,
{
    let keep = has_id(id);
    let named = profiles.filter(keep);
    lemma_filter_holds(profiles, keep, p);
    if named.len() > 0 {
        assert(named.contains(named[0]));
        lemma_filter_holds(profiles, keep, named[0]);
    }
}

/// A selected profile is one of the provider's own, is enabled, and does not rest.
pub proof fn selected_profile_is_enabled_and_available(
    provider: ProviderConfig,
    sticky: Option<Seq<char>>,
    rests: Map<Seq<char>, u64>,
    now: u64,
)
    ensures
        selected(provider.enabled_profiles(), sticky, rests, now) matches Some(p) ==> {
            &&& provider.auth_profiles@.contains(p)
            &&& p.enabled
            &&& available(rests, p.id@, now)
        },
{
    let profiles = provider.enabled_profiles();
    if let Some(p) = selected(profiles, sticky, rests, now) {
        lemma_filter_holds(provider.auth_profiles@, |q: AuthProfile| q.enabled, p);
        let usable = available_profiles(profiles, rests, now);
        lemma_filter_holds(
            profiles,
            |q: AuthProfile| available(rests, q.id@, now),
            p,
        );
        if let Some(id) = sticky {
            lemma_profile_with_id(profiles, id, p);
        }
        if usable.len() > 0 {
            assert(usable.contains(usable[0]));
        }
    }
}

/// No profile is selected only where every enabled profile of the provider rests.
pub proof fn nothing_is_selected_only_where_all_rest(
    provider: ProviderConfig,
    sticky: Option<Seq<char>>,
    rests: Map<Seq<char>, u64>,
    now: u64,
)
    ensures
        selected(provider.enabled_profiles(), sticky, rests, now) is None <==> (forall|
            p: AuthProfile,
        |
            #[trigger] provider.auth_profiles@.contains(p) && p.enabled
                ==> !available(rests, p.id@, now)),
{
    let profiles = provider.enabled_profiles();
    let usable = available_profiles(profiles, rests, now);
    selected_profile_is_enabled_and_available(provider, sticky, rests, now);
    if selected(profiles, sticky, rests, now) is None {
        assert forall|p: AuthProfile| #[trigger]
            provider.auth_profiles@.contains(p)
                && p.enabled implies !available(rests, p.id@, now) by {
            lemma_filter_holds(provider.auth_profiles@, |q: AuthProfile| q.enabled, p);
            lemma_filter_holds(
                profiles,
                |q: AuthProfile| available(rests, q.id@, now),
                p,
            );
        }
    }
}

/// A session keeps to its profile: where the remembered profile is in the rotation and does not
/// rest, a profile with its id is selected.
pub proof fn session_keeps_its_profile(
    provider: ProviderConfig,
    id: Seq<char>,
    rests: Map<Seq<char>, u64>,
    now: u64,
)
    requires
        exists|p: AuthProfile| #[trigger]
            provider.auth_profiles@.contains(p) && p.enabled && p.id@ == id,
        available(rests, id, now),
    ensures
        selected(provider.enabled_profiles(), Some(id), rests, now) matches Some(p) && p.id@ == id,
{
    let profiles = provider.enabled_profiles();
    let p = choose|p: AuthProfile| #[trigger]
        provider.auth_profiles@.contains(p) && p.enabled && p.id@ == id;
    lemma_filter_holds(provider.auth_profiles@, |q: AuthProfile| q.enabled, p);
    lemma_profile_with_id(profiles, id, p);
}

/// The profile that is tried next is enabled, does not rest and was not tried; none is left only
/// where each enabled profile rests or was tried.
pub proof fn next_profile_is_fresh(
    provider: ProviderConfig,
    tried: Seq<String>,
    rests: Map<Seq<char>, u64>,
    now: u64,
)
    ensures
        match next_selected(provider.enabled_profiles(), tried, rests, now) {
            Some(p) => {
                &&& provider.auth_profiles@.contains(p)
                &&& p.enabled
                &&& available(rests, p.id@, now)
                &&& !was_tried(tried, p.id@)
            },
            None => forall|p: AuthProfile| #[trigger]
                provider.auth_profiles@.contains(p) && p.enabled
                    ==> !available(rests, p.id@, now) || was_tried(
                    tried,
                    p.id@,
                ),
        },
{
    let profiles = provider.enabled_profiles();
    let usable = available_profiles(profiles, rests, now);
    let fresh = usable.filter(|q: AuthProfile| !was_tried(tried, q.id@));
    assert forall|p: AuthProfile| #[trigger] fresh.contains(p) <==> {
        &&& provider.auth_profiles@.contains(p)
        &&& p.enabled
        &&& available(rests, p.id@, now)
        &&& !was_tried(tried, p.id@)
    } by {
        lemma_filter_holds(provider.auth_profiles@, |q: AuthProfile| q.enabled, p);
        lemma_filter_holds(
            profiles,
            |q: AuthProfile| available(rests, q.id@, now),
            p,
        );
        lemma_filter_holds(usable, |q: AuthProfile| !was_tried(tried, q.id@), p);
    }
    if fresh.len() > 0 {
        assert(fresh.contains(fresh[0]));
    } else {
        assert forall|p: AuthProfile| #[trigger]
            provider.auth_profiles@.contains(p)
                && p.enabled implies !available(rests, p.id@, now)
            || was_tried(tried, p.id@) by {
            assert(!fresh.contains(p));
        }
    }
}

/// The profile that was remembered for a session is the one that serves it next, as long as it is
/// in the rotation and does not rest.
pub proof fn remembered_profile_serves_next(
    provider: ProviderConfig,
    order: Sessions,
    session: Seq<char>,
    id: Seq<char>,
    rests: Map<Seq<char>, u64>,
    now: u64,
)
    requires
        exists|p: AuthProfile| #[trigger]
            provider.auth_profiles@.contains(p) && p.enabled && p.id@ == id,
        available(rests, id, now),
    ensures
        selected(
            provider.enabled_profiles(),
            profile_of(
                after_set(order, session, id, STICKY_MAX_SESSIONS_PER_PROVIDER as nat),
                session,
            ),
            rests,
            now,
        ) matches Some(p) && p.id@ == id,
{
    set_profile_is_found(order, session, id, STICKY_MAX_SESSIONS_PER_PROVIDER as nat);
    session_keeps_its_profile(provider, id, rests, now);
}

/// A profile that failed for a reason with a cooldown is neither selected nor tried next before
/// the cooldown is over, even where it is remembered for the session.
pub proof fn failed_profile_is_passed_over(
    provider: ProviderConfig,
    sticky: Option<Seq<char>>,
    tried: Seq<String>,
    rests: Map<Seq<char>, u64>,
    id: Seq<char>,
    reason: FailoverReason,
    now: u64,
    later: u64,
)
    requires
        reason.cooldown_secs() > 0,
        now + reason.cooldown_secs() * NANOS_PER_SEC <= u64::MAX,
        later < now + reason.cooldown_secs() * NANOS_PER_SEC,
    ensures
        selected(
            provider.enabled_profiles(),
            sticky,
            after_failure(rests, id, reason, now),
            later,
        ) matches Some(p) ==> p.id@ != id,
        next_selected(
            provider.enabled_profiles(),
            tried,
            after_failure(rests, id, reason, now),
            later,
        ) matches Some(p) ==> p.id@ != id,
{
    let resting = after_failure(rests, id, reason, now);
    failed_profile_rests_for_its_cooldown(rests, id, reason, now, later);
    selected_profile_is_enabled_and_available(provider, sticky, resting, later);
    next_profile_is_fresh(provider, tried, resting, later);
}

/// Whether a profile of a provider is the first that has a property: it has it, and none before it
/// in the list has.
pub open spec fn is_first_with(
    profiles: Seq<AuthProfile>,
    p: AuthProfile,
    property: spec_fn(AuthProfile) -> bool,
) -> bool {
    exists|i: int|
        {
            &&& 0 <= i < profiles.len()
            &&& #[trigger] profiles[i] == p
            &&& property(p)
            &&& forall|j: int| 0 <= j < i ==> !property(#[trigger] profiles[j])
        }
}

proof fn lemma_first_of_filter_is_first(
    profiles: Seq<AuthProfile>,
    keep: spec_fn(AuthProfile) -> bool,
)
    ensures
        first_of(profiles.filter(keep)) matches Some(p) ==> is_first_with(profiles, p, keep),
    decreases profiles.len(),
{
    reveal(Seq::filter);
    if profiles.len() > 0 {
        let front = profiles.drop_last();
        lemma_first_of_filter_is_first(front, keep);
        if front.filter(keep).len() > 0 {
            let p = front.filter(keep)[0];
            let i = choose|i: int|
                {
                    &&& 0 <= i < front.len()
                    &&& #[trigger] front[i] == p
                    &&& keep(p)
                    &&& forall|j: int| 0 <= j < i ==> !keep(#[trigger] front[j])
                };
            assert(profiles[i] == p);
            assert forall|j: int| 0 <= j < i implies !keep(#[trigger] profiles[j]) by {
                assert(front[j] == profiles[j]);
            }
        } else if keep(profiles.last()) {
            let n = profiles.len() - 1;
            assert(profiles[n] == profiles.last());
            assert forall|j: int| 0 <= j < n implies !keep(#[trigger] profiles[j]) by {
                assert(front[j] == profiles[j]);
                lemma_filter_holds(front, keep, profiles[j]);
                if keep(profiles[j]) {
                    assert(front.contains(profiles[j]));
                }
            }
        }
    }
}

/// The first of a list filtered twice is the first of the list that passes both.
proof fn lemma_first_of_two_filters(
    profiles: Seq<AuthProfile>,
    a: spec_fn(AuthProfile) -> bool,
    b: spec_fn(AuthProfile) -> bool,
)
    ensures
        profiles.filter(a).filter(b) == profiles.filter(|p: AuthProfile| a(p) && b(p)),
    decreases profiles.len(),
{
    reveal(Seq::filter);
    let both = |p: AuthProfile| a(p) && b(p);
    if profiles.len() > 0 {
        let front = profiles.drop_last();
        lemma_first_of_two_filters(front, a, b);
        if a(profiles.last()) {
            let f = profiles.filter(a);
            assert(f.drop_last() =~= front.filter(a));
            assert(f.last() == profiles.last());
        }
    } else {
        assert(profiles.filter(a).filter(b) =~= profiles.filter(both));
    }
}

/// Where no profile is remembered for the session, the first of the provider's profiles that is
/// enabled and does not rest is selected. So it is where the remembered one is not enabled, not
/// there or rests.
pub proof fn first_usable_profile_is_selected(
    provider: ProviderConfig,
    id: Seq<char>,
    rests: Map<Seq<char>, u64>,
    now: u64,
)
    ensures
        selected(provider.enabled_profiles(), None, rests, now) matches Some(p) ==> is_first_with(
            provider.auth_profiles@,
            p,
            |q: AuthProfile| q.enabled && available(rests, q.id@, now),
        ),
        !available(rests, id, now) || (forall|q: AuthProfile| #[trigger]
            provider.auth_profiles@.contains(q) && q.enabled ==> q.id@ != id) ==> selected(
            provider.enabled_profiles(),
            Some(id),
            rests,
            now,
        ) == selected(provider.enabled_profiles(), None, rests, now),
{
    let enabled = |q: AuthProfile| q.enabled;
    let usable = |q: AuthProfile| available(rests, q.id@, now);
    let both = |q: AuthProfile| q.enabled && available(rests, q.id@, now);
    let all = provider.auth_profiles@;
    lemma_first_of_two_filters(all, enabled, usable);
    assert(both =~= (|p: AuthProfile| enabled(p) && usable(p)));
    assert(all.filter(enabled) == provider.enabled_profiles());
    lemma_first_of_filter_is_first(all, both);
    if let Some(p) = profile_with_id(provider.enabled_profiles(), id) {
        lemma_profile_with_id(provider.enabled_profiles(), id, p);
        lemma_filter_holds(all, enabled, p);
    }
}

/// The remembered profile that is selected is the first of the provider's profiles that is enabled
/// and has the remembered id.
pub proof fn remembered_profile_is_selected(
    provider: ProviderConfig,
    id: Seq<char>,
    rests: Map<Seq<char>, u64>,
    now: u64,
)
    requires
        available(rests, id, now),
        exists|p: AuthProfile| #[trigger]
            provider.auth_profiles@.contains(p) && p.enabled && p.id@ == id,
    ensures
        selected(provider.enabled_profiles(), Some(id), rests, now) matches Some(p)
            && is_first_with(
            provider.auth_profiles@,
            p,
            |q: AuthProfile| q.enabled && q.id@ == id,
        ),
{
    session_keeps_its_profile(provider, id, rests, now);
    let enabled = |q: AuthProfile| q.enabled;
    let named = has_id(id);
    let both = |q: AuthProfile| q.enabled && q.id@ == id;
    let all = provider.auth_profiles@;
    lemma_first_of_two_filters(all, enabled, named);
    assert(both =~= (|p: AuthProfile| enabled(p) && named(p)));
    lemma_first_of_filter_is_first(all, both);
    let p = choose|p: AuthProfile| #[trigger]
        provider.auth_profiles@.contains(p) && p.enabled && p.id@ == id;
    lemma_filter_holds(all, enabled, p);
    lemma_profile_with_id(provider.enabled_profiles(), id, p);
}

/// The profile that is tried next is the first of the provider's profiles that is enabled, does not
/// rest and is not among those tried.
pub proof fn first_fresh_profile_is_next(
    provider: ProviderConfig,
    tried: Seq<String>,
    rests: Map<Seq<char>, u64>,
    now: u64,
)
    ensures
        next_selected(provider.enabled_profiles(), tried, rests, now) matches Some(p)
            ==> is_first_with(
            provider.auth_profiles@,
            p,
            |q: AuthProfile|
                q.enabled && available(rests, q.id@, now) && (forall|i: int|
                    0 <= i < tried.len() ==> #[trigger] tried[i]@ != q.id@),
        ),
{
    let enabled = |q: AuthProfile| q.enabled;
    let usable = |q: AuthProfile| available(rests, q.id@, now);
    let fresh = |q: AuthProfile| !was_tried(tried, q.id@);
    let both = |p: AuthProfile| enabled(p) && usable(p);
    let each = |q: AuthProfile|
        q.enabled && available(rests, q.id@, now) && (forall|i: int|
            0 <= i < tried.len() ==> #[trigger] tried[i]@ != q.id@);
    let all = provider.auth_profiles@;
    lemma_first_of_two_filters(all, enabled, usable);
    lemma_first_of_two_filters(all, both, fresh);
    assert(each =~= (|p: AuthProfile| both(p) && fresh(p)));
    lemma_first_of_filter_is_first(all, each);
}

} // verus!
