//! Cooldowns of auth profiles: a profile rests for a while after it failed.
//!
//! Times are nanoseconds on a clock that never goes back; where its count starts does not matter.
//! The state lives as long as the process does and is not stored.

use vstd::prelude::*;

use crate::failover::classify::FailoverReason;
use crate::failover::profile::AuthProfile;
use crate::text::same_text;

verus! {

/// Nanoseconds in a second.
pub const NANOS_PER_SEC: u64 = 1_000_000_000;

/// Expired entries are dropped once more profiles than this are tracked.
pub const COOLDOWN_PRUNE_ABOVE: usize = 100;

struct CooldownEntry {
    profile: String,
    until: u64,
}

/// The auth profiles that rest, and until when.
pub struct ProfileCooldownTracker {
    entries: Vec<CooldownEntry>,
}

spec fn distinct(entries: Seq<CooldownEntry>) -> bool {
    forall|i: int, j: int|
        0 <= i < j < entries.len() ==> #[trigger] entries[i].profile@ != #[trigger] entries[j].profile@
}

spec fn entries_map(entries: Seq<CooldownEntry>) -> Map<Seq<char>, u64>
    decreases entries.len(),
{
    if entries.len() == 0 {
        Map::empty()
    } else {
        entries_map(entries.drop_last()).insert(entries.last().profile@, entries.last().until)
    }
}

proof fn lemma_entries_map(entries: Seq<CooldownEntry>)
    requires
        distinct(entries),
    ensures
        entries_map(entries).dom().finite(),
        entries_map(entries).len() == entries.len(),
        forall|i: int|
            0 <= i < entries.len() ==> entries_map(entries).contains_key(
                #[trigger] entries[i].profile@,
            ) && entries_map(entries)[entries[i].profile@] == entries[i].until,
        forall|k: Seq<char>| #[trigger]
            entries_map(entries).contains_key(k) ==> exists|i: int|
                0 <= i < entries.len() && #[trigger] entries[i].profile@ == k,
    decreases entries.len(),
{
    if entries.len() > 0 {
        let front = entries.drop_last();
        lemma_entries_map(front);
        let last = entries.last();
        if entries_map(front).contains_key(last.profile@) {
            let i = choose|i: int| 0 <= i < front.len() && #[trigger] front[i].profile@ == last.profile@;
            assert(entries[i].profile@ == entries[entries.len() - 1].profile@);
        }
        assert forall|i: int| 0 <= i < entries.len() implies entries_map(entries).contains_key(
            #[trigger] entries[i].profile@,
        ) && entries_map(entries)[entries[i].profile@] == entries[i].until by {
            if i < entries.len() - 1 {
                assert(front[i] == entries[i]);
                assert(entries[i].profile@ != entries[entries.len() - 1].profile@);
            }
        }
        assert forall|k: Seq<char>| #[trigger] entries_map(entries).contains_key(k) implies exists|
            i: int,
        |
            0 <= i < entries.len() && #[trigger] entries[i].profile@ == k by {
            if k == last.profile@ {
                assert(entries[entries.len() - 1].profile@ == k);
            } else {
                let i = choose|i: int| 0 <= i < front.len() && #[trigger] front[i].profile@ == k;
                assert(entries[i].profile@ == k);
            }
        }
    }
}

/// Whether the profile `id` may be used at the time `now`, given until when profiles rest.
pub open spec fn available(rests: Map<Seq<char>, u64>, id: Seq<char>, now: u64) -> bool {
    !rests.contains_key(id) || rests[id] <= now
}

/// The profiles that still rest at the time `now`.
pub open spec fn still_resting(rests: Map<Seq<char>, u64>, now: u64) -> Map<Seq<char>, u64> {
    rests.restrict(Set::new(|id: Seq<char>| rests.contains_key(id) && now < rests[id]))
}

/// Until when profiles rest once `id` failed for `reason` at the time `now`. A reason without a
/// cooldown changes nothing.
pub open spec fn after_failure(
    rests: Map<Seq<char>, u64>,
    id: Seq<char>,
    reason: FailoverReason,
    now: u64,
) -> Map<Seq<char>, u64> {
    if reason.cooldown_secs() == 0 {
        rests
    } else {
        (if rests.len() > COOLDOWN_PRUNE_ABOVE {
            still_resting(rests, now)
        } else {
            rests
        }).insert(id, (now + reason.cooldown_secs() * NANOS_PER_SEC) as u64)
    }
}

impl View for ProfileCooldownTracker {
    type V = Map<Seq<char>, u64>;

    /// Until when each tracked profile rests, by the id of the profile.
    closed spec fn view(&self) -> Map<Seq<char>, u64> {
        entries_map(self.entries@)
    }
}

impl ProfileCooldownTracker {
    /// No profile is tracked twice.
    pub closed spec fn wf(self) -> bool {
        distinct(self.entries@)
    }

    /// A tracker in which no profile rests.
    pub fn new() -> (r: Self)
        ensures
            r.wf(),
            r@ == Map::<Seq<char>, u64>::empty(),
    {
        ProfileCooldownTracker { entries: Vec::new() }
    }

    fn position(&self, profile_id: &str) -> (r: Option<usize>)
        requires
            self.wf(),
        ensures
            match r {
                Some(i) => i < self.entries.len() && self.entries@[i as int].profile@
                    == profile_id@,
                None => !self@.contains_key(profile_id@),
            },
    {
        let mut i: usize = 0;
        while i < self.entries.len()
            invariant
                i <= self.entries.len(),
                forall|j: int| 0 <= j < i ==> #[trigger] self.entries@[j].profile@ != profile_id@,
            decreases self.entries.len() - i,
        {
            if same_text(self.entries[i].profile.as_str(), profile_id) {
                return Some(i);
            }
            i += 1;
        }
        proof {
            lemma_entries_map(self.entries@);
        }
        None
    }

    fn remove_entry(&mut self, profile_id: &str)
        requires
            old(self).wf(),
        ensures
            final(self).wf(),
            final(self)@ == old(self)@.remove(profile_id@),
    {
        let ghost before = self.entries@;
        if let Some(i) = self.position(profile_id) {
            self.entries.remove(i);
            proof {
                let after = self.entries@;
                assert(after =~= before.remove(i as int));
                lemma_removed(before, i as int);
            }
        } else {
            assert(self@ =~= self@.remove(profile_id@));
        }
    }

    fn prune(&mut self, now: u64)
        requires
            old(self).wf(),
        ensures
            final(self).wf(),
            final(self)@ == still_resting(old(self)@, now),
    {
        let ghost before = self.entries@;
        let mut i: usize = 0;
        proof {
            lemma_entries_map(before);
        }
        while i < self.entries.len()
            invariant
                i <= self.entries.len(),
                self.wf(),
                forall|j: int| 0 <= j < i ==> now < (#[trigger] self.entries@[j]).until,
                still_resting(self@, now) == still_resting(entries_map(before), now),
            decreases self.entries.len() - i,
        {
            if now < self.entries[i].until {
                i += 1;
            } else {
                let ghost es = self.entries@;
                self.entries.remove(i);
                proof {
                    lemma_entries_map(es);
                    assert(self.entries@ =~= es.remove(i as int));
                    lemma_removed(es, i as int);
                    assert(still_resting(entries_map(es.remove(i as int)), now) =~= still_resting(
                        entries_map(es),
                        now,
                    ));
                }
            }
        }
        proof {
            lemma_entries_map(self.entries@);
            assert(still_resting(self@, now) =~= self@);
        }
    }

    /// Lets a profile rest after it failed for `reason` at the time `now`, for as long as the
    /// reason asks. Expired entries are dropped where many profiles are tracked.
    pub fn mark_cooldown(&mut self, profile_id: &str, reason: &FailoverReason, now: u64)
        requires
            old(self).wf(),
            now + reason.cooldown_secs() * NANOS_PER_SEC <= u64::MAX,
        ensures
            final(self).wf(),
            final(self)@ == after_failure(old(self)@, profile_id@, *reason, now),
    {
        let secs = reason.profile_cooldown_secs();
        if secs == 0 {
            return;
        }
        proof {
            lemma_entries_map(self.entries@);
        }
        if self.entries.len() > COOLDOWN_PRUNE_ABOVE {
            self.prune(now);
        }
        let ghost kept = self@;
        self.remove_entry(profile_id);
        proof {
            lemma_entries_map(self.entries@);
            assert(!self@.contains_key(profile_id@));
        }
        let ghost rest = self.entries@;
        let entry = CooldownEntry {
            profile: profile_id.to_owned(),
            until: now + secs * NANOS_PER_SEC,
        };
        self.entries.push(entry);
        proof {
            assert(self.entries@.drop_last() =~= rest);
            assert(self@ =~= kept.insert(profile_id@, entry.until));
        }
    }

    /// Whether a profile may be used at the time `now`.
    pub fn is_available(&self, profile_id: &str, now: u64) -> (r: bool)
        requires
            self.wf(),
        ensures
            r == available(self@, profile_id@, now),
    {
        match self.position(profile_id) {
            Some(i) => {
                proof {
                    lemma_entries_map(self.entries@);
                }
                now >= self.entries[i].until
            },
            None => true,
        }
    }

    /// The profiles that may be used at the time `now`, in the order given.
    pub fn filter_available(&self, profiles: &Vec<AuthProfile>, now: u64) -> (r: Vec<AuthProfile>)
        requires
            self.wf(),
        ensures
            r@ == profiles@.filter(|p: AuthProfile| available(self@, p.id@, now)),
    {
        let ghost keep = |p: AuthProfile| available(self@, p.id@, now);
        let mut r: Vec<AuthProfile> = Vec::new();
        let mut i: usize = 0;
        while i < profiles.len()
            invariant
                i <= profiles.len(),
                self.wf(),
                keep == (|p: AuthProfile| available(self@, p.id@, now)),
                r@ == profiles@.take(i as int).filter(keep),
            decreases profiles.len() - i,
        {
            reveal(Seq::filter);
            assert(profiles@.take(i + 1).drop_last() =~= profiles@.take(i as int));
            if self.is_available(profiles[i].id.as_str(), now) {
                r.push(profiles[i].clone());
            }
            i += 1;
        }
        assert(profiles@.take(i as int) =~= profiles@);
        r
    }

    /// Ends the cooldown of a profile, such as after a success.
    pub fn clear(&mut self, profile_id: &str)
        requires
            old(self).wf(),
        ensures
            final(self).wf(),
            final(self)@ == old(self)@.remove(profile_id@),
    {
        self.remove_entry(profile_id);
    }
}

proof fn lemma_removed(entries: Seq<CooldownEntry>, i: int)
    requires
        distinct(entries),
        0 <= i < entries.len(),
    ensures
        distinct(entries.remove(i)),
        entries_map(entries.remove(i)) == entries_map(entries).remove(entries[i].profile@),
{
    let after = entries.remove(i);
    assert forall|a: int, b: int| 0 <= a < b < after.len() implies #[trigger] after[a].profile@
        != #[trigger] after[b].profile@ by {
        let a0 = if a < i {
            a
        } else {
            a + 1
        };
        let b0 = if b < i {
            b
        } else {
            b + 1
        };
        assert(after[a] == entries[a0]);
        assert(after[b] == entries[b0]);
    }
    lemma_entries_map(entries);
    lemma_entries_map(after);
    let m = entries_map(entries).remove(entries[i].profile@);
    assert forall|k: Seq<char>| entries_map(after).contains_key(k) <==> #[trigger] m.contains_key(
        k,
    ) by {
        if entries_map(after).contains_key(k) {
            let a = choose|a: int| 0 <= a < after.len() && #[trigger] after[a].profile@ == k;
            let a0 = if a < i {
                a
            } else {
                a + 1
            };
            assert(after[a] == entries[a0]);
            assert(entries[a0].profile@ == k);
            assert(entries[i].profile@ != k);
        }
        if m.contains_key(k) {
            let b = choose|b: int| 0 <= b < entries.len() && #[trigger] entries[b].profile@ == k;
            let b0 = if b < i {
                b
            } else {
                b - 1
            };
            assert(after[b0] == entries[b]);
            assert(after[b0].profile@ == k);
        }
    }
    assert forall|k: Seq<char>| #[trigger] m.contains_key(k) implies entries_map(after)[k]
        == m[k] by {
        let b = choose|b: int| 0 <= b < entries.len() && #[trigger] entries[b].profile@ == k;
        let b0 = if b < i {
            b
        } else {
            b - 1
        };
        assert(after[b0] == entries[b]);
        assert(after[b0].profile@ == k);
    }
    assert(entries_map(after) =~= m);
}

// ── Laws ─────────────────────────────────────────────────────────

/// A profile that failed for a reason with a cooldown may not be used before the cooldown is over,
/// and may be used from then on.
pub proof fn failed_profile_rests_for_its_cooldown(
    rests: Map<Seq<char>, u64>,
    id: Seq<char>,
    reason: FailoverReason,
    now: u64,
    later: u64,
)
    requires
        reason.cooldown_secs() > 0,
        now + reason.cooldown_secs() * NANOS_PER_SEC <= u64::MAX,
    ensures
        available(after_failure(rests, id, reason, now), id, later) <==> now
            + reason.cooldown_secs() * NANOS_PER_SEC <= later,
{
}

/// A failure of one profile leaves every other profile as available as it was, from then on: what
/// is dropped on the way had expired.
pub proof fn failure_leaves_other_profiles_alone(
    rests: Map<Seq<char>, u64>,
    id: Seq<char>,
    reason: FailoverReason,
    now: u64,
    other: Seq<char>,
    later: u64,
)
    requires
        other != id,
        now <= later,
    ensures
        available(after_failure(rests, id, reason, now), other, later) == available(
            rests,
            other,
            later,
        ),
{
}

/// A profile whose cooldown was ended may be used at any time; the others are as they were.
pub proof fn cleared_profile_is_available(
    rests: Map<Seq<char>, u64>,
    id: Seq<char>,
    other: Seq<char>,
    now: u64,
)
    requires
        other != id,
    ensures
        available(rests.remove(id), id, now),
        available(rests.remove(id), other, now) == available(rests, other, now),
{
}

/// Once many profiles are tracked, a failure drops every expired entry: afterwards the tracked
/// profiles all rest.
pub proof fn pruning_drops_what_expired(
    rests: Map<Seq<char>, u64>,
    id: Seq<char>,
    reason: FailoverReason,
    now: u64,
    known: Seq<char>,
)
    requires
        rests.len() > COOLDOWN_PRUNE_ABOVE,
        reason.cooldown_secs() > 0,
        now + reason.cooldown_secs() * NANOS_PER_SEC <= u64::MAX,
        after_failure(rests, id, reason, now).contains_key(known),
    ensures
        now < after_failure(rests, id, reason, now)[known],
{
}

/// What a failure decides: for a reason without a cooldown nothing changes, not even a cooldown that
/// the profile has. For any other reason the profile rests from then on for as long as the reason
/// asks, whatever cooldown it had before, and every other profile is as available as it was.
pub proof fn failure_decides_availability(
    rests: Map<Seq<char>, u64>,
    id: Seq<char>,
    reason: FailoverReason,
    now: u64,
    any: Seq<char>,
    later: u64,
)
    requires
        now + reason.cooldown_secs() * NANOS_PER_SEC <= u64::MAX,
        now <= later,
    ensures
        available(after_failure(rests, id, reason, now), any, later) == (if reason.cooldown_secs()
            == 0 || any != id {
            available(rests, any, later)
        } else {
            now + reason.cooldown_secs() * NANOS_PER_SEC <= later
        }),
{
    if any != id {
        failure_leaves_other_profiles_alone(rests, id, reason, now, any, later);
    } else if reason.cooldown_secs() > 0 {
        failed_profile_rests_for_its_cooldown(rests, id, reason, now, later);
    }
}

/// A profile rests exactly while the end noted for it is still to come; one for which none is noted
/// does not rest.
pub proof fn noted_end_decides(rests: Map<Seq<char>, u64>, id: Seq<char>, until: u64, now: u64)
    ensures
        available(rests.insert(id, until), id, now) <==> until <= now,
        available(rests.remove(id), id, now),
        available(Map::empty(), id, now),
{
}

/// How long a profile rests after each failure, in nanoseconds of the clock.
pub proof fn profiles_rest_as_long_as_documented(
    rests: Map<Seq<char>, u64>,
    id: Seq<char>,
    now: u64,
    later: u64,
)
    requires
        now + 600_000_000_000 <= u64::MAX,
    ensures
        available(after_failure(rests, id, FailoverReason::Overloaded, now), id, later) <==> now
            + 30_000_000_000 <= later,
        available(after_failure(rests, id, FailoverReason::RateLimit, now), id, later) <==> now
            + 60_000_000_000 <= later,
        available(after_failure(rests, id, FailoverReason::Auth, now), id, later) <==> now
            + 300_000_000_000 <= later,
        available(after_failure(rests, id, FailoverReason::Billing, now), id, later) <==> now
            + 600_000_000_000 <= later,
        after_failure(rests, id, FailoverReason::Timeout, now) == rests,
        after_failure(rests, id, FailoverReason::ModelNotFound, now) == rests,
        after_failure(rests, id, FailoverReason::ContextOverflow, now) == rests,
        after_failure(rests, id, FailoverReason::Unknown, now) == rests,
{
}

/// Up to a hundred profiles are tracked as they are, expired or not; beyond that a failure drops
/// those that do not rest any more and keeps those that do.
pub proof fn expired_profiles_are_dropped_above_a_hundred(
    rests: Map<Seq<char>, u64>,
    id: Seq<char>,
    reason: FailoverReason,
    now: u64,
    other: Seq<char>,
)
    requires
        other != id,
        reason == FailoverReason::Overloaded || reason == FailoverReason::RateLimit || reason
            == FailoverReason::Auth || reason == FailoverReason::Billing,
    ensures
        ({
            let after = after_failure(rests, id, reason, now);
            &&& after.contains_key(id)
            &&& rests.len() <= 100 ==> (after.contains_key(other) <==> rests.contains_key(other))
            &&& rests.len() > 100 ==> (after.contains_key(other) <==> rests.contains_key(other)
                && now < rests[other])
            &&& after.contains_key(other) ==> after[other] == rests[other]
        }),
{
}

} // verus!
