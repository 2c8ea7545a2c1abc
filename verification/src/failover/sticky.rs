//! Session stickiness: a session keeps to the auth profile that last worked for it, so that the
//! caches of the provider stay warm.

use vstd::prelude::*;

use crate::text::same_text;

verus! {

/// How many sessions are remembered for one provider at most.
pub const STICKY_MAX_SESSIONS_PER_PROVIDER: usize = 500;

// ── What is remembered for one provider ──────────────────────────

/// The remembered sessions of a provider with the profile of each, the one that was not used for
/// the longest time first.
pub type Sessions = Seq<(Seq<char>, Seq<char>)>;

/// No session is remembered twice.
pub open spec fn sessions_distinct(order: Sessions) -> bool {
    forall|i: int, j: int|
        0 <= i < j < order.len() ==> (#[trigger] order[i]).0 != (#[trigger] order[j]).0
}

/// The profile that is remembered for a session.
pub open spec fn profile_of(order: Sessions, session: Seq<char>) -> Option<Seq<char>>
    decreases order.len(),
{
    if order.len() == 0 {
        None
    } else if order.last().0 == session {
        Some(order.last().1)
    } else {
        profile_of(order.drop_last(), session)
    }
}

/// The remembered sessions but for one.
pub open spec fn forgotten(order: Sessions, session: Seq<char>) -> Sessions
    decreases order.len(),
{
    if order.len() == 0 {
        order
    } else if order.last().0 == session {
        forgotten(order.drop_last(), session)
    } else {
        forgotten(order.drop_last(), session).push(order.last())
    }
}

/// The remembered sessions after `session` was used with `profile`: it comes last.
pub open spec fn touched(order: Sessions, session: Seq<char>, profile: Seq<char>) -> Sessions {
    forgotten(order, session).push((session, profile))
}

/// The newest `max` of the remembered sessions.
pub open spec fn newest(order: Sessions, max: nat) -> Sessions {
    if order.len() > max {
        order.skip(order.len() - max)
    } else {
        order
    }
}

/// The remembered sessions after a profile was looked up for a session: a session that is
/// remembered counts as used.
pub open spec fn after_get(order: Sessions, session: Seq<char>) -> Sessions {
    match profile_of(order, session) {
        Some(profile) => touched(order, session, profile),
        None => order,
    }
}

/// The remembered sessions after a profile was set for a session, at most `max` of them.
pub open spec fn after_set(
    order: Sessions,
    session: Seq<char>,
    profile: Seq<char>,
    max: nat,
) -> Sessions {
    newest(touched(order, session, profile), max)
}

proof fn lemma_profile_of(order: Sessions, session: Seq<char>)
    ensures
        profile_of(order, session) is Some <==> exists|i: int|
            0 <= i < order.len() && (#[trigger] order[i]).0 == session,
        sessions_distinct(order) ==> forall|i: int|
            0 <= i < order.len() && (#[trigger] order[i]).0 == session ==> profile_of(
                order,
                session,
            ) == Some(order[i].1),
    decreases order.len(),
{
    if order.len() > 0 {
        let front = order.drop_last();
        lemma_profile_of(front, session);
        assert forall|i: int| 0 <= i < front.len() implies (#[trigger] front[i]) == order[i] by {}
        if profile_of(order, session) is Some {
            if order.last().0 == session {
                assert(order[order.len() - 1].0 == session);
            } else {
                let i = choose|i: int| 0 <= i < front.len() && (#[trigger] front[i]).0 == session;
                assert(order[i].0 == session);
            }
        }
        assert forall|i: int| 0 <= i < order.len() && (#[trigger] order[i]).0 == session implies (
        profile_of(order, session) is Some && (sessions_distinct(order) ==> profile_of(
            order,
            session,
        ) == Some(order[i].1))) by {
            if i < order.len() - 1 {
                assert(front[i] == order[i]);
                if sessions_distinct(order) {
                    assert(order[i].0 != order[order.len() - 1].0);
                }
            }
        }
    }
}

proof fn lemma_forgotten(order: Sessions, session: Seq<char>)
    ensures
        forall|i: int|
            0 <= i < forgotten(order, session).len() ==> (#[trigger] forgotten(
                order,
                session,
            )[i]).0 != session,
        forall|other: Seq<char>|
            other != session ==> #[trigger] profile_of(forgotten(order, session), other)
                == profile_of(order, other),
        profile_of(forgotten(order, session), session) is None,
        sessions_distinct(order) ==> sessions_distinct(forgotten(order, session)),
        sessions_distinct(order) ==> forgotten(order, session).len() == order.len() - (if profile_of(
            order,
            session,
        ) is Some {
            1int
        } else {
            0
        }),
        forall|i: int|
            0 <= i < forgotten(order, session).len() ==> order.contains(
                #[trigger] forgotten(order, session)[i],
            ),
        profile_of(order, session) is None ==> forgotten(order, session) == order,
    decreases order.len(),
{
    let f = forgotten(order, session);
    if order.len() > 0 {
        let front = order.drop_last();
        let ff = forgotten(front, session);
        lemma_forgotten(front, session);
        if order.last().0 != session {
            assert(f.drop_last() =~= ff);
        }
        assert forall|i: int| 0 <= i < f.len() implies order.contains(#[trigger] f[i]) by {
            if i < ff.len() {
                assert(f[i] == ff[i]);
                assert(front.contains(ff[i]));
                let k = choose|k: int| 0 <= k < front.len() && front[k] == ff[i];
                assert(order[k] == f[i]);
            } else {
                assert(order[order.len() - 1] == f[i]);
            }
        }
        assert forall|other: Seq<char>| other != session implies #[trigger] profile_of(f, other)
            == profile_of(order, other) by {
            assert(profile_of(ff, other) == profile_of(front, other));
        }
        if sessions_distinct(order) {
            assert(sessions_distinct(front)) by {
                assert forall|i: int, j: int| 0 <= i < j < front.len() implies (
                #[trigger] front[i]).0 != (#[trigger] front[j]).0 by {
                    assert(front[i] == order[i] && front[j] == order[j]);
                }
            }
            assert forall|i: int, j: int| 0 <= i < j < f.len() implies (#[trigger] f[i]).0 != (
            #[trigger] f[j]).0 by {
                if order.last().0 != session && j == f.len() - 1 {
                    assert(f[i] == ff[i]);
                    assert(front.contains(ff[i]));
                    let k = choose|k: int| 0 <= k < front.len() && front[k] == ff[i];
                    assert(order[k].0 != order[order.len() - 1].0);
                } else {
                    assert(f[i] == ff[i] && f[j] == ff[j]);
                }
            }
            if order.last().0 == session {
                lemma_profile_of(front, session);
                if profile_of(front, session) is Some {
                    let k = choose|k: int|
                        0 <= k < front.len() && (#[trigger] front[k]).0 == session;
                    assert(order[k].0 == order[order.len() - 1].0);
                }
            }
        }
        if profile_of(order, session) is None {
            assert(f =~= order);
        }
    } else {
        assert(f =~= order);
    }
}

/// Taking the entry at `i` out of a list of distinct sessions forgets its session.
proof fn lemma_remove_forgets(order: Sessions, i: int)
    requires
        sessions_distinct(order),
        0 <= i < order.len(),
    ensures
        order.remove(i) == forgotten(order, order[i].0),
    decreases order.len(),
{
    let session = order[i].0;
    let front = order.drop_last();
    assert(sessions_distinct(front)) by {
        assert forall|a: int, b: int| 0 <= a < b < front.len() implies (#[trigger] front[a]).0 != (
        #[trigger] front[b]).0 by {
            assert(front[a] == order[a] && front[b] == order[b]);
        }
    }
    if i == order.len() - 1 {
        lemma_profile_of(front, session);
        if profile_of(front, session) is Some {
            let k = choose|k: int| 0 <= k < front.len() && (#[trigger] front[k]).0 == session;
            assert(order[k].0 == order[i].0);
        }
        lemma_forgotten(front, session);
        assert(order.remove(i) =~= front);
    } else {
        assert(order[i].0 != order[order.len() - 1].0);
        assert(front[i] == order[i]);
        lemma_remove_forgets(front, i);
        assert(order.remove(i) =~= front.remove(i).push(order.last()));
    }
}

proof fn lemma_touched(order: Sessions, session: Seq<char>, profile: Seq<char>)
    ensures
        sessions_distinct(order) ==> sessions_distinct(touched(order, session, profile)),
        profile_of(touched(order, session, profile), session) == Some(profile),
        forall|other: Seq<char>|
            other != session ==> #[trigger] profile_of(touched(order, session, profile), other)
                == profile_of(order, other),
{
    lemma_forgotten(order, session);
    let f = forgotten(order, session);
    let t = touched(order, session, profile);
    assert(t.drop_last() =~= f);
    assert forall|other: Seq<char>| other != session implies #[trigger] profile_of(t, other)
        == profile_of(order, other) by {
        assert(profile_of(f, other) == profile_of(order, other));
    }
    if sessions_distinct(order) {
        assert forall|i: int, j: int| 0 <= i < j < t.len() implies (#[trigger] t[i]).0 != (
        #[trigger] t[j]).0 by {
            if j == t.len() - 1 {
                assert(t[i] == f[i]);
            } else {
                assert(t[i] == f[i] && t[j] == f[j]);
            }
        }
    }
}

struct StickyEntry {
    session: String,
    profile: String,
}

/// The sessions of one provider, in the order of their last use.
struct StickyShard {
    entries: Vec<StickyEntry>,
}

spec fn entries_view(entries: Seq<StickyEntry>) -> Sessions {
    Seq::new(entries.len(), |i: int| (entries[i].session@, entries[i].profile@))
}

impl StickyShard {
    spec fn order(self) -> Sessions {
        entries_view(self.entries@)
    }

    fn new() -> (r: Self)
        ensures
            r.order() == Seq::<(Seq<char>, Seq<char>)>::empty(),
    {
        let r = StickyShard { entries: Vec::new() };
        assert(r.order() =~= Seq::<(Seq<char>, Seq<char>)>::empty());
        r
    }

    fn position(&self, session_id: &str) -> (r: Option<usize>)
        ensures
            match r {
                Some(i) => i < self.entries.len() && self.order()[i as int].0 == session_id@,
                None => profile_of(self.order(), session_id@) is None,
            },
    {
        let mut i: usize = 0;
        while i < self.entries.len()
            invariant
                i <= self.entries.len(),
                forall|j: int| 0 <= j < i ==> (#[trigger] self.order()[j]).0 != session_id@,
            decreases self.entries.len() - i,
        {
            if same_text(self.entries[i].session.as_str(), session_id) {
                return Some(i);
            }
            i += 1;
        }
        proof {
            lemma_profile_of(self.order(), session_id@);
        }
        None
    }

    /// Makes a remembered session the most recently used one, with its profile.
    fn promote(&mut self, session_id: &str, profile_id: &str)
        requires
            sessions_distinct(old(self).order()),
        ensures
            final(self).order() == touched(old(self).order(), session_id@, profile_id@),
    {
        let ghost before = self.order();
        match self.position(session_id) {
            Some(i) => {
                self.entries.remove(i);
                proof {
                    lemma_remove_forgets(before, i as int);
                    assert(self.order() =~= before.remove(i as int));
                }
            },
            None => {
                proof {
                    lemma_forgotten(before, session_id@);
                }
            },
        }
        let ghost rest = self.order();
        assert(rest == forgotten(before, session_id@));
        self.entries.push(
            StickyEntry { session: session_id.to_owned(), profile: profile_id.to_owned() },
        );
        assert(self.order() =~= rest.push((session_id@, profile_id@)));
    }

    /// Remembers a profile for a session, and forgets the oldest sessions above `max`.
    fn insert(&mut self, session_id: &str, profile_id: &str, max: usize)
        requires
            sessions_distinct(old(self).order()),
        ensures
            final(self).order() == after_set(
                old(self).order(),
                session_id@,
                profile_id@,
                max as nat,
            ),
    {
        self.promote(session_id, profile_id);
        let ghost all = self.order();
        while self.entries.len() > max
            invariant
                self.order() == newest(all, self.entries.len() as nat),
                self.entries.len() <= all.len(),
                self.entries.len() >= max || self.entries.len() == all.len(),
            decreases self.entries.len(),
        {
            let ghost before = self.order();
            self.entries.remove(0);
            assert(self.order() =~= before.skip(1));
            assert(self.order() =~= newest(all, self.entries.len() as nat));
        }
        assert(self.order() =~= newest(all, max as nat));
    }
}

// ── All providers ────────────────────────────────────────────────

struct ProviderShard {
    provider: String,
    shard: StickyShard,
}

/// The profile that last worked, for each provider and session.
pub struct ProfileStickyMap {
    shards: Vec<ProviderShard>,
}

spec fn sessions_in(shards: Seq<ProviderShard>, provider: Seq<char>) -> Sessions
    decreases shards.len(),
{
    if shards.len() == 0 {
        Seq::empty()
    } else if shards.last().provider@ == provider {
        shards.last().shard.order()
    } else {
        sessions_in(shards.drop_last(), provider)
    }
}

spec fn providers_distinct(shards: Seq<ProviderShard>) -> bool {
    forall|i: int, j: int|
        0 <= i < j < shards.len() ==> #[trigger] shards[i].provider@
            != #[trigger] shards[j].provider@
}

proof fn lemma_sessions_in(shards: Seq<ProviderShard>, provider: Seq<char>)
    requires
        providers_distinct(shards),
    ensures
        forall|i: int|
            0 <= i < shards.len() && #[trigger] shards[i].provider@ == provider ==> sessions_in(
                shards,
                provider,
            ) == shards[i].shard.order(),
        (forall|i: int| 0 <= i < shards.len() ==> #[trigger] shards[i].provider@ != provider)
            ==> sessions_in(shards, provider) == Seq::<(Seq<char>, Seq<char>)>::empty(),
    decreases shards.len(),
{
    if shards.len() > 0 {
        let front = shards.drop_last();
        assert(providers_distinct(front)) by {
            assert forall|i: int, j: int| 0 <= i < j < front.len() implies #[trigger] front[i].provider@
                != #[trigger] front[j].provider@ by {
                assert(front[i] == shards[i] && front[j] == shards[j]);
            }
        }
        lemma_sessions_in(front, provider);
        assert forall|i: int|
            0 <= i < shards.len() && #[trigger] shards[i].provider@ == provider implies sessions_in(
            shards,
            provider,
        ) == shards[i].shard.order() by {
            if i < shards.len() - 1 {
                assert(front[i] == shards[i]);
                assert(shards[i].provider@ != shards[shards.len() - 1].provider@);
            }
        }
        if forall|i: int| 0 <= i < shards.len() ==> #[trigger] shards[i].provider@ != provider {
            assert(shards[shards.len() - 1].provider@ != provider);
            assert forall|i: int| 0 <= i < front.len() implies #[trigger] front[i].provider@
                != provider by {
                assert(front[i] == shards[i]);
            }
        }
    }
}

impl ProfileStickyMap {
    /// The sessions that are remembered for a provider, the oldest first.
    pub closed spec fn sessions(self, provider: Seq<char>) -> Sessions {
        sessions_in(self.shards@, provider)
    }

    /// For each provider no session is remembered twice, and no more sessions than the cap.
    pub closed spec fn wf(self) -> bool {
        &&& providers_distinct(self.shards@)
        &&& forall|i: int|
            0 <= i < self.shards.len() ==> sessions_distinct(
                (#[trigger] self.shards@[i]).shard.order(),
            ) && self.shards@[i].shard.order().len() <= STICKY_MAX_SESSIONS_PER_PROVIDER
    }

    /// A map that remembers nothing.
    pub fn new() -> (r: Self)
        ensures
            r.wf(),
            forall|provider: Seq<char>| #[trigger] r.sessions(provider) == Seq::<
                (Seq<char>, Seq<char>),
            >::empty(),
    {
        ProfileStickyMap { shards: Vec::new() }
    }

    fn shard_position(&self, provider_id: &str) -> (r: Option<usize>)
        requires
            self.wf(),
        ensures
            match r {
                Some(i) => i < self.shards.len() && self.shards@[i as int].provider@
                    == provider_id@ && self.sessions(provider_id@)
                    == self.shards@[i as int].shard.order(),
                None => self.sessions(provider_id@) == Seq::<(Seq<char>, Seq<char>)>::empty() && (
                forall|j: int|
                    0 <= j < self.shards.len() ==> #[trigger] self.shards@[j].provider@
                        != provider_id@),
            },
    {
        let mut i: usize = 0;
        proof {
            lemma_sessions_in(self.shards@, provider_id@);
        }
        while i < self.shards.len()
            invariant
                i <= self.shards.len(),
                forall|j: int| 0 <= j < i ==> #[trigger] self.shards@[j].provider@ != provider_id@,
                forall|j: int|
                    0 <= j < self.shards.len() && #[trigger] self.shards@[j].provider@
                        == provider_id@ ==> self.sessions(provider_id@)
                        == self.shards@[j].shard.order(),
            decreases self.shards.len() - i,
        {
            if same_text(self.shards[i].provider.as_str(), provider_id) {
                return Some(i);
            }
            i += 1;
        }
        None
    }

    /// The profile that is remembered for a provider and a session. A session that is remembered
    /// becomes the most recently used one of its provider.
    pub fn get(&mut self, provider_id: &str, session_id: &str) -> (r: Option<String>)
        requires
            old(self).wf(),
        ensures
            final(self).wf(),
            match r {
                Some(p) => profile_of(old(self).sessions(provider_id@), session_id@) == Some(p@),
                None => profile_of(old(self).sessions(provider_id@), session_id@) is None,
            },
            final(self).sessions(provider_id@) == after_get(
                old(self).sessions(provider_id@),
                session_id@,
            ),
            forall|other: Seq<char>|
                other != provider_id@ ==> #[trigger] final(self).sessions(other) == old(
                    self,
                ).sessions(other),
    {
        let ghost before = *self;
        let at = match self.shard_position(provider_id) {
            Some(at) => at,
            None => return None,
        };
        let found = match self.shards[at].shard.position(session_id) {
            Some(i) => i,
            None => return None,
        };
        let profile = self.shards[at].shard.entries[found].profile.clone();
        let ghost order = before.shards@[at as int].shard.order();
        self.shards[at].shard.promote(session_id, profile.as_str());
        proof {
            lemma_profile_of(order, session_id@);
            lemma_touched(order, session_id@, profile@);
            lemma_forgotten(order, session_id@);
            lemma_shard_replaced(before.shards@, self.shards@, at as int);
        }
        Some(profile)
    }

    /// Remembers the profile that worked for a provider and a session. Above the cap the session
    /// of the provider that was not used for the longest time is forgotten, and no other.
    pub fn set(&mut self, provider_id: &str, session_id: &str, profile_id: &str)
        requires
            old(self).wf(),
        ensures
            final(self).wf(),
            final(self).sessions(provider_id@) == after_set(
                old(self).sessions(provider_id@),
                session_id@,
                profile_id@,
                STICKY_MAX_SESSIONS_PER_PROVIDER as nat,
            ),
            forall|other: Seq<char>|
                other != provider_id@ ==> #[trigger] final(self).sessions(other) == old(
                    self,
                ).sessions(other),
    {
        let ghost before = self.shards@;
        let at = match self.shard_position(provider_id) {
            Some(at) => at,
            None => {
                let at = self.shards.len();
                self.shards.push(
                    ProviderShard { provider: provider_id.to_owned(), shard: StickyShard::new() },
                );
                proof {
                    assert(self.shards@.drop_last() =~= before);
                    lemma_shard_added(before, self.shards@);
                }
                at
            },
        };
        let ghost mid = self.shards@;
        let ghost order = mid[at as int].shard.order();
        self.shards[at].shard.insert(session_id, profile_id, STICKY_MAX_SESSIONS_PER_PROVIDER);
        proof {
            lemma_sessions_in(mid, provider_id@);
            lemma_touched(order, session_id@, profile_id@);
            lemma_newest(
                touched(order, session_id@, profile_id@),
                STICKY_MAX_SESSIONS_PER_PROVIDER as nat,
            );
            lemma_shard_replaced(mid, self.shards@, at as int);
        }
    }
}

proof fn lemma_newest(order: Sessions, max: nat)
    ensures
        newest(order, max).len() <= max,
        sessions_distinct(order) ==> sessions_distinct(newest(order, max)),
{
    let n = newest(order, max);
    if sessions_distinct(order) && order.len() > max {
        assert forall|i: int, j: int| 0 <= i < j < n.len() implies (#[trigger] n[i]).0 != (
        #[trigger] n[j]).0 by {
            let d = order.len() - max;
            assert(n[i] == order[i + d] && n[j] == order[j + d]);
        }
    }
}

proof fn lemma_shard_replaced(a: Seq<ProviderShard>, b: Seq<ProviderShard>, at: int)
    requires
        providers_distinct(a),
        a.len() == b.len(),
        0 <= at < a.len(),
        b[at].provider@ == a[at].provider@,
        forall|i: int| 0 <= i < a.len() && i != at ==> #[trigger] b[i] == a[i],
    ensures
        providers_distinct(b),
        sessions_in(b, a[at].provider@) == b[at].shard.order(),
        forall|other: Seq<char>|
            other != a[at].provider@ ==> #[trigger] sessions_in(b, other) == sessions_in(a, other),
{
    assert forall|i: int, j: int| 0 <= i < j < b.len() implies #[trigger] b[i].provider@
        != #[trigger] b[j].provider@ by {
        assert(a[i].provider@ != a[j].provider@);
    }
    lemma_sessions_in(b, a[at].provider@);
    assert forall|other: Seq<char>| other != a[at].provider@ implies #[trigger] sessions_in(
        b,
        other,
    ) == sessions_in(a, other) by {
        lemma_sessions_in(a, other);
        lemma_sessions_in(b, other);
        if exists|i: int| 0 <= i < a.len() && #[trigger] a[i].provider@ == other {
            let i = choose|i: int| 0 <= i < a.len() && #[trigger] a[i].provider@ == other;
            assert(b[i].provider@ == other);
        }
    }
}

proof fn lemma_shard_added(a: Seq<ProviderShard>, b: Seq<ProviderShard>)
    requires
        providers_distinct(a),
        b.len() == a.len() + 1,
        b.drop_last() == a,
        b.last().shard.order() == Seq::<(Seq<char>, Seq<char>)>::empty(),
        forall|i: int| 0 <= i < a.len() ==> #[trigger] a[i].provider@ != b.last().provider@,
    ensures
        providers_distinct(b),
        forall|provider: Seq<char>| #[trigger]
            sessions_in(b, provider) == sessions_in(a, provider),
{
    assert forall|i: int, j: int| 0 <= i < j < b.len() implies #[trigger] b[i].provider@
        != #[trigger] b[j].provider@ by {
        assert(a[i] == b[i]);
        if j < a.len() {
            assert(a[j] == b[j]);
        }
    }
    assert forall|provider: Seq<char>| #[trigger] sessions_in(b, provider) == sessions_in(
        a,
        provider,
    ) by {
        lemma_sessions_in(a, provider);
    }
}

// ── Laws ─────────────────────────────────────────────────────────

/// What was set for a session is what a lookup gives.
pub proof fn set_profile_is_found(
    order: Sessions,
    session: Seq<char>,
    profile: Seq<char>,
    max: nat,
)
    requires
        max > 0,
    ensures
        profile_of(after_set(order, session, profile, max), session) == Some(profile),
{
    let t = touched(order, session, profile);
    assert(newest(t, max).last() == t.last());
}

/// Looking a session up changes no session's profile.
pub proof fn lookup_keeps_every_profile(order: Sessions, session: Seq<char>, any: Seq<char>)
    ensures
        profile_of(after_get(order, session), any) == profile_of(order, any),
{
    if let Some(profile) = profile_of(order, session) {
        lemma_touched(order, session, profile);
    }
}

/// Setting the profile of a session forgets no other session while there is room, or where the
/// session was remembered already.
pub proof fn set_with_room_keeps_the_others(
    order: Sessions,
    session: Seq<char>,
    profile: Seq<char>,
    max: nat,
    other: Seq<char>,
)
    requires
        sessions_distinct(order),
        order.len() < max || (order.len() == max && profile_of(order, session) is Some),
        other != session,
    ensures
        profile_of(after_set(order, session, profile, max), other) == profile_of(order, other),
{
    lemma_touched(order, session, profile);
    lemma_forgotten(order, session);
}

/// Where the cap is reached and a new session comes, the one that was not used for the longest
/// time is forgotten, and every other session keeps its profile.
pub proof fn full_map_forgets_only_the_oldest(
    order: Sessions,
    session: Seq<char>,
    profile: Seq<char>,
    max: nat,
    other: Seq<char>,
)
    requires
        sessions_distinct(order),
        order.len() == max,
        max > 0,
        profile_of(order, session) is None,
        other != session,
    ensures
        profile_of(after_set(order, session, profile, max), other) == (if other == order[0].0 {
            None
        } else {
            profile_of(order, other)
        }),
{
    lemma_forgotten(order, session);
    let t = touched(order, session, profile);
    let n = newest(t, max);
    assert(n == t.skip(1));
    lemma_touched(order, session, profile);
    lemma_newest(t, max);
    lemma_profile_of(t, other);
    lemma_profile_of(n, other);
    assert(t[0] == order[0]);
    if profile_of(n, other) is Some {
        let i = choose|i: int| 0 <= i < n.len() && (#[trigger] n[i]).0 == other;
        assert(n[i] == t[i + 1]);
        assert(t[0].0 != t[i + 1].0);
    }
    if other != order[0].0 && profile_of(t, other) is Some {
        let i = choose|i: int| 0 <= i < t.len() && (#[trigger] t[i]).0 == other;
        assert(n[i - 1] == t[i]);
    }
}

/// A session that was just looked up is not the one that is forgotten next.
pub proof fn looked_up_session_survives(
    order: Sessions,
    session: Seq<char>,
    new: Seq<char>,
    profile: Seq<char>,
    max: nat,
)
    requires
        sessions_distinct(order),
        order.len() <= max,
        max > 1,
        profile_of(order, session) is Some,
        new != session,
    ensures
        profile_of(after_set(after_get(order, session), new, profile, max), session)
            == profile_of(order, session),
{
    let got = after_get(order, session);
    lookup_keeps_every_profile(order, session, session);
    lemma_touched(order, session, profile_of(order, session)->Some_0);
    lemma_forgotten(order, session);
    if got.len() < max || profile_of(got, new) is Some {
        set_with_room_keeps_the_others(got, new, profile, max, session);
    } else {
        full_map_forgets_only_the_oldest(got, new, profile, max, session);
        assert(got[0].0 != got[got.len() - 1].0);
    }
}

/// However many sessions come, no more than `max` are remembered, and none twice.
pub proof fn sessions_stay_bounded(
    order: Sessions,
    session: Seq<char>,
    profile: Seq<char>,
    max: nat,
)
    requires
        sessions_distinct(order),
    ensures
        after_set(order, session, profile, max).len() <= max,
        sessions_distinct(after_set(order, session, profile, max)),
        order.len() <= max ==> after_get(order, session).len() <= max,
        sessions_distinct(after_get(order, session)),
{
    lemma_touched(order, session, profile);
    lemma_newest(touched(order, session, profile), max);
    lemma_forgotten(order, session);
    if let Some(p) = profile_of(order, session) {
        lemma_touched(order, session, p);
    }
}

/// What is remembered once a profile was set: the newest sessions, at most `max`, with the one that
/// was set last. It has the profile that was set, the others have those they had. Where there is
/// room for all that was remembered, setting a session that was remembered forgets nothing.
pub proof fn set_keeps_the_newest(
    order: Sessions,
    session: Seq<char>,
    profile: Seq<char>,
    max: nat,
)
    requires
        sessions_distinct(order),
    ensures
        ({
            let kept = after_set(order, session, profile, max);
            let all = forgotten(order, session).push((session, profile));
            &&& sessions_distinct(kept)
            &&& kept == all.skip(all.len() - kept.len())
            &&& kept.len() == (if all.len() <= max {
                all.len()
            } else {
                max
            })
            &&& max > 0 ==> kept.last() == (session, profile)
            &&& forall|i: int|
                0 <= i < kept.len() ==> Some((#[trigger] kept[i]).1) == (if kept[i].0 == session {
                    Some(profile)
                } else {
                    profile_of(order, kept[i].0)
                })
            &&& profile_of(order, session) is Some && order.len() <= max ==> kept.len()
                == order.len()
        }),
{
    let kept = after_set(order, session, profile, max);
    let all = touched(order, session, profile);
    sessions_stay_bounded(order, session, profile, max);
    lemma_touched(order, session, profile);
    lemma_forgotten(order, session);
    assert(all.skip(0) =~= all);
    let dropped = all.len() - kept.len();
    assert forall|i: int| 0 <= i < kept.len() implies Some((#[trigger] kept[i]).1) == (if kept[i].0
        == session {
        Some(profile)
    } else {
        profile_of(order, kept[i].0)
    }) by {
        assert(kept[i] == all[i + dropped]);
        lemma_profile_of(all, kept[i].0);
    }
}

/// Forgetting a session takes out its entries and nothing else, in the order of the others.
pub proof fn forgetting_takes_out_one_session(order: Sessions, session: Seq<char>)
    ensures
        forgotten(order, session) == order.filter(|e: (Seq<char>, Seq<char>)| e.0 != session),
    decreases order.len(),
{
    reveal(Seq::filter);
    if order.len() > 0 {
        forgetting_takes_out_one_session(order.drop_last(), session);
    }
}

/// A lookup moves a remembered session behind the others and leaves them in their order; it leaves
/// everything where the session is not remembered.
pub proof fn lookup_moves_the_session_back(order: Sessions, session: Seq<char>)
    requires
        sessions_distinct(order),
    ensures
        match profile_of(order, session) {
            Some(profile) => {
                &&& order.contains((session, profile))
                &&& after_get(order, session) == order.filter(
                    |e: (Seq<char>, Seq<char>)| e.0 != session,
                ).push((session, profile))
            },
            None => after_get(order, session) == order && (forall|i: int|
                0 <= i < order.len() ==> (#[trigger] order[i]).0 != session),
        },
{
    lemma_profile_of(order, session);
    forgetting_takes_out_one_session(order, session);
    if profile_of(order, session) is Some {
        let i = choose|i: int| 0 <= i < order.len() && (#[trigger] order[i]).0 == session;
        assert(order[i] == (session, profile_of(order, session)->Some_0));
    }
}

/// A provider has room for 500 sessions: up to there, none is forgotten for another.
pub proof fn providers_remember_500_sessions(
    order: Sessions,
    session: Seq<char>,
    profile: Seq<char>,
    other: Seq<char>,
)
    requires
        sessions_distinct(order),
        other != session,
    ensures
        order.len() < 500 ==> profile_of(
            after_set(order, session, profile, STICKY_MAX_SESSIONS_PER_PROVIDER as nat),
            other,
        ) == profile_of(order, other),
        after_set(order, session, profile, STICKY_MAX_SESSIONS_PER_PROVIDER as nat).len() <= 500,
{
    lemma_newest(
        touched(order, session, profile),
        STICKY_MAX_SESSIONS_PER_PROVIDER as nat,
    );
    if order.len() < 500 {
        set_with_room_keeps_the_others(
            order,
            session,
            profile,
            STICKY_MAX_SESSIONS_PER_PROVIDER as nat,
            other,
        );
    }
}

} // verus!
