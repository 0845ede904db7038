//! The limit on login attempts.

use crate::text;
use dashmap::DashMap;
use std::collections::VecDeque;
use vstd::prelude::*;
use vstd::string::*;

verus! {

/// The nanoseconds in a second.
pub const NANOS_PER_SEC: u64 = 1_000_000_000;

/// Whether an attempt at `at` is within the window that ends at `now`. Times are
/// nanoseconds on one clock; an attempt that is not before `now` has age zero.
pub open spec fn in_window(at: u64, now: u64, window_secs: u64) -> bool {
    let age = if at < now {
        now - at
    } else {
        0
    };
    age < window_secs * NANOS_PER_SEC
}

/// The attempts of a list that are within the window.
pub open spec fn recent(attempts: Seq<u64>, now: u64, window_secs: u64) -> Seq<u64>
    decreases attempts.len(),
{
    if attempts.len() == 0 {
        attempts
    } else {
        let rest = recent(attempts.drop_last(), now, window_secs);
        if in_window(attempts.last(), now, window_secs) {
            rest.push(attempts.last())
        } else {
            rest
        }
    }
}

/// The attempts of every name that are within the window; a name without one is
/// forgotten.
pub open spec fn all_recent(
    m: Map<Seq<char>, Seq<u64>>,
    now: u64,
    window_secs: u64,
) -> Map<Seq<char>, Seq<u64>> {
    Map::new(
        |k: Seq<char>| m.contains_key(k) && recent(m[k], now, window_secs).len() > 0,
        |k: Seq<char>| recent(m[k], now, window_secs),
    )
}

/// The attempts that a map holds for each name.
pub uninterp spec fn attempts_of(m: DashMap<String, VecDeque<u64>>) -> Map<Seq<char>, Seq<u64>>;

/// Keeps the attempts within the window, and says whether there is one.
fn keep_recent(attempts: &mut VecDeque<u64>, now: u64, window_secs: u64) -> (r: bool)
    ensures
        final(attempts)@ == recent(old(attempts)@, now, window_secs),
        r == (final(attempts)@.len() > 0),
{
    let ghost all = attempts@;
    let mut kept: VecDeque<u64> = VecDeque::new();
    let mut i: usize = 0;
    proof {
        assert(kept@ =~= recent(all.take(0), now, window_secs));
    }
    while i < attempts.len()
        invariant
            attempts@ == all,
            i <= all.len(),
            kept@ == recent(all.take(i as int), now, window_secs),
        decreases all.len() - i,
    {
        proof {
            assert(all.take(i as int + 1).drop_last() =~= all.take(i as int));
        }
        let at: u64 = attempts[i];
        let age: u128 = if at < now {
            (now - at) as u128
        } else {
            0
        };
        proof {
            assert(window_secs * NANOS_PER_SEC <= u64::MAX * 1_000_000_000) by (nonlinear_arith)
                requires
                    window_secs <= u64::MAX,
                    NANOS_PER_SEC == 1_000_000_000,
            ;
        }
        if age < window_secs as u128 * NANOS_PER_SEC as u128 {
            kept.push_back(at);
        }
        i += 1;
    }
    proof {
        assert(all.take(all.len() as int) == all);
    }
    *attempts = kept;
    attempts.len() > 0
}

/// Calls `DashMap::new`: a map with nothing in it.
#[verifier::external_body]
fn new_attempts() -> (r: DashMap<String, VecDeque<u64>>)
    ensures
        attempts_of(r).dom() == Set::<Seq<char>>::empty(),
{
    DashMap::new()
}

/// Calls `DashMap::get`, and copies the list that the reference leads to.
#[verifier::external_body]
fn get_attempts(m: &DashMap<String, VecDeque<u64>>, key: &str) -> (r: Option<VecDeque<u64>>)
    ensures
        match r {
            Some(a) => attempts_of(*m).contains_key(key@) && attempts_of(*m)[key@] == a@,
            None => !attempts_of(*m).contains_key(key@),
        },
{
    m.get(key).map(|entry| entry.value().clone())
}

/// Calls `DashMap::insert`, which sets the value of one key.
#[verifier::external_body]
fn put_attempts(m: &mut DashMap<String, VecDeque<u64>>, key: &str, attempts: VecDeque<u64>)
    ensures
        attempts_of(*final(m)) == attempts_of(*old(m)).insert(key@, attempts@),
{
    m.insert(key.to_string(), attempts);
}

/// Calls `DashMap::remove`, which removes one key.
#[verifier::external_body]
fn remove_attempts(m: &mut DashMap<String, VecDeque<u64>>, key: &str)
    ensures
        attempts_of(*final(m)) == attempts_of(*old(m)).remove(key@),
{
    m.remove(key);
}

/// Calls `DashMap::retain`, which lets the closure change each value and keeps
/// the entries for which it holds; the closure keeps what is in the window, and
/// holds where that is not empty.
#[verifier::external_body]
fn retain_recent(m: &mut DashMap<String, VecDeque<u64>>, now: u64, window_secs: u64)
    ensures
        attempts_of(*final(m)) == all_recent(attempts_of(*old(m)), now, window_secs),
{
    m.retain(|_, attempts| keep_recent(attempts, now, window_secs));
}

/// The attempts within the window under one name.
pub open spec fn recent_under(
    m: Map<Seq<char>, Seq<u64>>,
    key: Seq<char>,
    now: u64,
    window_secs: u64,
) -> Seq<u64> {
    if m.contains_key(key) {
        recent(m[key], now, window_secs)
    } else {
        Seq::empty()
    }
}

/// The attempts after one more: old ones are forgotten, and an attempt that is
/// let through is noted.
pub open spec fn after_attempt(
    m: Map<Seq<char>, Seq<u64>>,
    key: Seq<char>,
    now: u64,
    window_secs: u64,
    max_attempts: nat,
) -> Map<Seq<char>, Seq<u64>> {
    let before = recent_under(m, key, now, window_secs);
    all_recent(m, now, window_secs).insert(
        key,
        if before.len() < max_attempts {
            before.push(now)
        } else {
            before
        },
    )
}

/// The recent login attempts of a running server, by lower-case user name.
pub struct LoginGuard {
    map: DashMap<String, VecDeque<u64>>,
}

impl View for LoginGuard {
    type V = Map<Seq<char>, Seq<u64>>;

    closed spec fn view(&self) -> Map<Seq<char>, Seq<u64>> {
        attempts_of(self.map)
    }
}

impl LoginGuard {
    /// No attempt.
    pub fn new() -> (r: LoginGuard)
        ensures
            r@ == Map::<Seq<char>, Seq<u64>>::empty(),
    {
        let r = LoginGuard { map: new_attempts() };
        proof {
            assert(r@ =~= Map::<Seq<char>, Seq<u64>>::empty());
        }
        r
    }

    /// An attempt to log in: whether it is let through, which it is while fewer
    /// than `max_attempts` are in the window.
    pub fn try_attempt(
        &mut self,
        username: &str,
        now: u64,
        window_secs: u64,
        max_attempts: usize,
    ) -> (r: bool)
        ensures
            r == (recent_under(old(self)@, text::lowercase(username@), now, window_secs).len()
                < max_attempts),
            final(self)@ == after_attempt(
                old(self)@,
                text::lowercase(username@),
                now,
                window_secs,
                max_attempts as nat,
            ),
    {
        let key = text::to_lowercase(username);
        retain_recent(&mut self.map, now, window_secs);
        let ghost kept = self@;
        let mut attempts = match get_attempts(&self.map, key.as_str()) {
            Some(a) => {
                proof {
                    recent_idempotent(old(self)@[key@], now, window_secs);
                }
                a
            },
            None => {
                let none: VecDeque<u64> = VecDeque::new();
                proof {
                    assert(recent_under(old(self)@, key@, now, window_secs) =~= none@);
                }
                none
            },
        };
        proof {
            assert(attempts@ == recent_under(old(self)@, key@, now, window_secs));
        }
        let admitted = attempts.len() < max_attempts;
        if admitted {
            attempts.push_back(now);
        }
        put_attempts(&mut self.map, key.as_str(), attempts);
        admitted
    }

    /// A login succeeded: the attempts under that name no longer count.
    pub fn clear(&mut self, username: &str)
        ensures
            final(self)@ == old(self)@.remove(text::lowercase(username@)),
    {
        let key = text::to_lowercase(username);
        remove_attempts(&mut self.map, key.as_str());
    }
}

/// What a client is told whose attempt was not let through.
pub open spec fn too_many_text(window_secs: nat) -> Seq<char> {
    "Слишком много попыток. Повторите через "@ + text::decimal_text(window_secs) + " секунд."@
}

/// What a client is told whose attempt was not let through.
pub fn too_many_attempts(window_secs: u64) -> (r: String)
    ensures
        r@ == too_many_text(window_secs as nat),
{
    text::join3(
        "Слишком много попыток. Повторите через ",
        text::decimal(window_secs).as_str(),
        " секунд.",
    )
}

// ---------------------------------------------------------------------------
// Laws
// ---------------------------------------------------------------------------

/// Everything that is kept is in the window, and was there.
pub proof fn recent_facts(attempts: Seq<u64>, now: u64, window_secs: u64)
    ensures
        recent(attempts, now, window_secs).len() <= attempts.len(),
        forall|i: int|
            0 <= i < recent(attempts, now, window_secs).len() ==> in_window(
                #[trigger] recent(attempts, now, window_secs)[i],
                now,
                window_secs,
            ),
        (forall|i: int| 0 <= i < attempts.len() ==> in_window(attempts[i], now, window_secs))
            ==> recent(attempts, now, window_secs) == attempts,
    decreases attempts.len(),
{
    if attempts.len() > 0 {
        recent_facts(attempts.drop_last(), now, window_secs);
        if forall|i: int| 0 <= i < attempts.len() ==> in_window(attempts[i], now, window_secs) {
            assert(in_window(attempts[attempts.len() - 1], now, window_secs));
            assert(forall|i: int|
                0 <= i < attempts.drop_last().len() ==> attempts.drop_last()[i] == attempts[i]);
            assert(attempts =~= attempts.drop_last().push(attempts.last()));
        }
    }
}

/// What is in the window stays when the window is applied again.
pub proof fn recent_idempotent(attempts: Seq<u64>, now: u64, window_secs: u64)
    ensures
        recent(recent(attempts, now, window_secs), now, window_secs) == recent(
            attempts,
            now,
            window_secs,
        ),
{
    recent_facts(attempts, now, window_secs);
    recent_facts(recent(attempts, now, window_secs), now, window_secs);
}

/// No name ever has more attempts on record than the limit: if that held before
/// an attempt, it holds after it, whoever makes it and whenever.
pub proof fn attempts_stay_within_limit(
    m: Map<Seq<char>, Seq<u64>>,
    key: Seq<char>,
    now: u64,
    window_secs: u64,
    max_attempts: nat,
)
    requires
        forall|k: Seq<char>| #[trigger] m.contains_key(k) ==> m[k].len() <= max_attempts,
    ensures
        ({
            let after = after_attempt(m, key, now, window_secs, max_attempts);
            forall|k: Seq<char>| #[trigger]
                after.contains_key(k) ==> after[k].len() <= max_attempts
        }),
{
    let after = after_attempt(m, key, now, window_secs, max_attempts);
    assert forall|k: Seq<char>| #[trigger] after.contains_key(k) implies after[k].len()
        <= max_attempts by {
        if m.contains_key(k) {
            recent_facts(m[k], now, window_secs);
        }
    }
}

/// Attempts under one name do not count against another.
pub proof fn attempts_are_separate(
    m: Map<Seq<char>, Seq<u64>>,
    key: Seq<char>,
    other: Seq<char>,
    now: u64,
    window_secs: u64,
    max_attempts: nat,
)
    requires
        key != other,
    ensures
        recent_under(after_attempt(m, key, now, window_secs, max_attempts), other, now, window_secs)
            == recent_under(m, other, now, window_secs),
{
    if m.contains_key(other) {
        recent_idempotent(m[other], now, window_secs);
        if recent(m[other], now, window_secs).len() == 0 {
            assert(recent_under(m, other, now, window_secs) =~= Seq::<u64>::empty());
        }
    }
}

/// After a login succeeded, nothing counts against the next attempt.
pub proof fn cleared_name_is_admitted(
    m: Map<Seq<char>, Seq<u64>>,
    key: Seq<char>,
    now: u64,
    window_secs: u64,
)
    ensures
        recent_under(m.remove(key), key, now, window_secs).len() == 0,
{
}

/// An attempt under a name at a time.
pub struct Try {
    pub key: Seq<char>,
    pub at: u64,
}

/// The attempts on record after a series of attempts, none of which succeeded.
pub open spec fn record_of(tries: Seq<Try>, window_secs: u64, max_attempts: nat) -> Map<
    Seq<char>,
    Seq<u64>,
>
    decreases tries.len(),
{
    if tries.len() == 0 {
        Map::empty()
    } else {
        after_attempt(
            record_of(tries.drop_last(), window_secs, max_attempts),
            tries.last().key,
            tries.last().at,
            window_secs,
            max_attempts,
        )
    }
}

/// Whether the last of a series of attempts is let through.
pub open spec fn last_is_let_through(
    tries: Seq<Try>,
    window_secs: u64,
    max_attempts: nat,
) -> bool {
    recent_under(
        record_of(tries.drop_last(), window_secs, max_attempts),
        tries.last().key,
        tries.last().at,
        window_secs,
    ).len() < max_attempts
}

/// How many of a series of attempts under a name were let through within the window
/// that ends at a time.
pub open spec fn let_through_within(
    tries: Seq<Try>,
    key: Seq<char>,
    now: u64,
    window_secs: u64,
    max_attempts: nat,
) -> nat
    decreases tries.len(),
{
    if tries.len() == 0 {
        0
    } else {
        let_through_within(tries.drop_last(), key, now, window_secs, max_attempts) + (if tries.last().key
            == key && last_is_let_through(tries, window_secs, max_attempts) && in_window(
            tries.last().at,
            now,
            window_secs,
        ) {
            1nat
        } else {
            0nat
        })
    }
}

proof fn recent_later(attempts: Seq<u64>, first: u64, now: u64, window_secs: u64)
    requires
        first <= now,
    ensures
        recent(recent(attempts, first, window_secs), now, window_secs) == recent(
            attempts,
            now,
            window_secs,
        ),
    decreases attempts.len(),
{
    if attempts.len() > 0 {
        let init = attempts.drop_last();
        recent_later(init, first, now, window_secs);
        let kept = recent(init, first, window_secs);
        assert(kept.push(attempts.last()).drop_last() =~= kept);
    }
}

proof fn record_is_exact(
    tries: Seq<Try>,
    key: Seq<char>,
    now: u64,
    window_secs: u64,
    max_attempts: nat,
)
    requires
        forall|i: int| 0 <= i < tries.len() ==> (#[trigger] tries[i]).at <= now,
        forall|i: int, j: int|
            0 <= i < j < tries.len() ==> (#[trigger] tries[i]).at <= (#[trigger] tries[j]).at,
    ensures
        recent_under(record_of(tries, window_secs, max_attempts), key, now, window_secs).len()
            == let_through_within(tries, key, now, window_secs, max_attempts),
    decreases tries.len(),
{
    if tries.len() > 0 {
        let init = tries.drop_last();
        let last = tries.last();
        assert(last == tries[tries.len() - 1]);
        assert(forall|i: int| 0 <= i < init.len() ==> init[i] == tries[i]);
        record_is_exact(init, key, now, window_secs, max_attempts);
        let m = record_of(init, window_secs, max_attempts);
        let after = record_of(tries, window_secs, max_attempts);
        if m.contains_key(key) {
            recent_later(m[key], last.at, now, window_secs);
        }
        let kept = recent_under(m, last.key, last.at, window_secs);
        if last.key == key {
            assert(after[key] == if kept.len() < max_attempts {
                kept.push(last.at)
            } else {
                kept
            });
            assert(recent(kept, now, window_secs) =~= recent_under(m, key, now, window_secs)) by {
                if !m.contains_key(key) {
                    assert(kept =~= Seq::<u64>::empty());
                }
            }
            assert(kept.push(last.at).drop_last() =~= kept);
        } else {
            if m.contains_key(key) && recent(m[key], last.at, window_secs).len() == 0 {
                assert(recent(m[key], last.at, window_secs) =~= Seq::<u64>::empty());
                assert(recent_under(after, key, now, window_secs) =~= Seq::<u64>::empty());
            }
        }
    }
}

proof fn record_is_limited(tries: Seq<Try>, window_secs: u64, max_attempts: nat)
    ensures
        forall|k: Seq<char>| #[trigger]
            record_of(tries, window_secs, max_attempts).contains_key(k) ==> record_of(
                tries,
                window_secs,
                max_attempts,
            )[k].len() <= max_attempts,
    decreases tries.len(),
{
    if tries.len() > 0 {
        record_is_limited(tries.drop_last(), window_secs, max_attempts);
        attempts_stay_within_limit(
            record_of(tries.drop_last(), window_secs, max_attempts),
            tries.last().key,
            tries.last().at,
            window_secs,
            max_attempts,
        );
    }
}

/// However often and under whatever names anyone tries, within a window no more
/// attempts under a name are let through than the limit allows, as long as none of
/// them succeeds and time does not run backwards.
pub proof fn no_window_exceeds_the_limit(
    tries: Seq<Try>,
    key: Seq<char>,
    now: u64,
    window_secs: u64,
    max_attempts: nat,
)
    requires
        forall|i: int| 0 <= i < tries.len() ==> (#[trigger] tries[i]).at <= now,
        forall|i: int, j: int|
            0 <= i < j < tries.len() ==> (#[trigger] tries[i]).at <= (#[trigger] tries[j]).at,
    ensures
        let_through_within(tries, key, now, window_secs, max_attempts) <= max_attempts,
{
    record_is_exact(tries, key, now, window_secs, max_attempts);
    record_is_limited(tries, window_secs, max_attempts);
    let m = record_of(tries, window_secs, max_attempts);
    if m.contains_key(key) {
        recent_facts(m[key], now, window_secs);
    }
}

/// An attempt counts until the window has passed since it, to the nanosecond; a window
/// of no seconds counts none.
pub proof fn how_long_an_attempt_counts(at: u64, now: u64, window_secs: u64)
    ensures
        in_window(at, now, window_secs) <==> window_secs > 0 && now - at < window_secs
            * 1_000_000_000,
{
}

/// What is kept of a list are the attempts since which the window has not passed, in
/// their order.
pub proof fn attempts_in_the_window_are_kept(attempts: Seq<u64>, now: u64, window_secs: u64)
    requires
        window_secs > 0,
    ensures
        recent(attempts, now, window_secs) == attempts.filter(
            |at: u64| now - at < window_secs * 1_000_000_000,
        ),
    decreases attempts.len(),
{
    reveal(Seq::filter);
    if attempts.len() > 0 {
        attempts_in_the_window_are_kept(attempts.drop_last(), now, window_secs);
    } else {
        assert(recent(attempts, now, window_secs) =~= Seq::<u64>::empty());
    }
}

/// An attempt is noted at the end of those in the window under its name if there are
/// fewer than the limit, and is not noted otherwise.
pub proof fn attempts_are_noted(
    m: Map<Seq<char>, Seq<u64>>,
    key: Seq<char>,
    now: u64,
    window_secs: u64,
    max_attempts: nat,
)
    requires
        window_secs > 0,
        m.contains_key(key),
    ensures
        ({
            let counted = m[key].filter(|at: u64| now - at < window_secs * 1_000_000_000);
            let after = after_attempt(m, key, now, window_secs, max_attempts);
            &&& after.contains_key(key)
            &&& counted.len() < max_attempts ==> after[key] == counted.push(now)
            &&& counted.len() >= max_attempts ==> after[key] == counted
        }),
{
    attempts_in_the_window_are_kept(m[key], now, window_secs);
}

/// The first attempt under a name is noted alone, unless no attempt is allowed at all.
pub proof fn first_attempts_are_noted(
    m: Map<Seq<char>, Seq<u64>>,
    key: Seq<char>,
    now: u64,
    window_secs: u64,
    max_attempts: nat,
)
    requires
        !m.contains_key(key),
    ensures
        ({
            let after = after_attempt(m, key, now, window_secs, max_attempts);
            &&& after.contains_key(key)
            &&& max_attempts > 0 ==> after[key] == seq![now]
            &&& max_attempts == 0 ==> after[key] == Seq::<u64>::empty()
        }),
{
    assert(Seq::<u64>::empty().push(now) =~= seq![now]);
}

/// Under every other name the attempts in the window stay on record, and the name with
/// them.
pub proof fn other_names_keep_their_attempts(
    m: Map<Seq<char>, Seq<u64>>,
    key: Seq<char>,
    other: Seq<char>,
    now: u64,
    window_secs: u64,
    max_attempts: nat,
)
    requires
        window_secs > 0,
        key != other,
    ensures
        ({
            let after = after_attempt(m, key, now, window_secs, max_attempts);
            let counted = m[other].filter(|at: u64| now - at < window_secs * 1_000_000_000);
            &&& after.contains_key(other) <==> m.contains_key(other) && counted.len() > 0
            &&& after.contains_key(other) ==> after[other] == counted
        }),
{
    attempts_in_the_window_are_kept(m[other], now, window_secs);
}

/// An attempt is let through exactly if fewer than the limit were let through under
/// its name in the window that ends with it.
pub proof fn attempts_are_let_through_up_to_the_limit(
    tries: Seq<Try>,
    window_secs: u64,
    max_attempts: nat,
)
    requires
        tries.len() > 0,
        forall|i: int, j: int|
            0 <= i < j < tries.len() ==> (#[trigger] tries[i]).at <= (#[trigger] tries[j]).at,
    ensures
        last_is_let_through(tries, window_secs, max_attempts) <==> let_through_within(
            tries.drop_last(),
            tries.last().key,
            tries.last().at,
            window_secs,
            max_attempts,
        ) < max_attempts,
{
    let init = tries.drop_last();
    assert(tries.last() == tries[tries.len() - 1]);
    assert(forall|i: int| 0 <= i < init.len() ==> init[i] == tries[i]);
    record_is_exact(init, tries.last().key, tries.last().at, window_secs, max_attempts);
}

/// As many attempts as the limit are let through, whenever they come.
pub proof fn few_attempts_are_let_through(tries: Seq<Try>, window_secs: u64, max_attempts: nat)
    requires
        0 < tries.len() <= max_attempts,
    ensures
        last_is_let_through(tries, window_secs, max_attempts),
{
    record_is_short(tries.drop_last(), window_secs, max_attempts);
    let m = record_of(tries.drop_last(), window_secs, max_attempts);
    if m.contains_key(tries.last().key) {
        recent_facts(m[tries.last().key], tries.last().at, window_secs);
    }
}

proof fn record_is_short(tries: Seq<Try>, window_secs: u64, max_attempts: nat)
    ensures
        forall|k: Seq<char>| #[trigger]
            record_of(tries, window_secs, max_attempts).contains_key(k) ==> record_of(
                tries,
                window_secs,
                max_attempts,
            )[k].len() <= tries.len(),
    decreases tries.len(),
{
    if tries.len() > 0 {
        let last = tries.last();
        let m = record_of(tries.drop_last(), window_secs, max_attempts);
        let after = record_of(tries, window_secs, max_attempts);
        record_is_short(tries.drop_last(), window_secs, max_attempts);
        assert forall|k: Seq<char>| #[trigger] after.contains_key(k) implies after[k].len()
            <= tries.len() by {
            if m.contains_key(k) {
                recent_facts(m[k], last.at, window_secs);
            }
        }
    }
}

/// Once the window has passed since every attempt under a name, none counts.
pub proof fn attempts_are_forgotten_in_time(
    m: Map<Seq<char>, Seq<u64>>,
    key: Seq<char>,
    now: u64,
    window_secs: u64,
)
    requires
        m.contains_key(key),
        forall|i: int| 0 <= i < m[key].len() ==> now - #[trigger] m[key][i] >= window_secs
            * 1_000_000_000,
    ensures
        recent_under(m, key, now, window_secs).len() == 0,
{
    none_is_recent(m[key], now, window_secs);
}

proof fn none_is_recent(attempts: Seq<u64>, now: u64, window_secs: u64)
    requires
        forall|i: int| 0 <= i < attempts.len() ==> now - #[trigger] attempts[i] >= window_secs
            * 1_000_000_000,
    ensures
        recent(attempts, now, window_secs).len() == 0,
    decreases attempts.len(),
{
    if attempts.len() > 0 {
        assert(attempts.last() == attempts[attempts.len() - 1]);
        assert(forall|i: int|
            0 <= i < attempts.drop_last().len() ==> attempts.drop_last()[i] == attempts[i]);
        none_is_recent(attempts.drop_last(), now, window_secs);
    }
}

/// A client whose attempt was not let through is told in how many seconds to come back.
pub proof fn refused_attempts_are_told_the_window(window_secs: nat)
    ensures
        too_many_text(window_secs) == "Слишком много попыток. Повторите через "@
            + text::decimal_text(window_secs) + " секунд."@,
{
}

/// An attempt under a name that has attempts on record is let through exactly if fewer
/// than the limit are in the window, and noted after those exactly if it is let through.
pub proof fn which_attempts_are_let_through(
    guard: &mut LoginGuard,
    username: &str,
    now: u64,
    window_secs: u64,
    max_attempts: usize,
    r: bool,
)
    requires
        call_ensures(
            LoginGuard::try_attempt,
            (guard, username, now, window_secs, max_attempts),
            r,
        ),
        window_secs > 0,
        old(guard)@.contains_key(text::lowercase(username@)),
    ensures
        ({
            let key = text::lowercase(username@);
            let counted = old(guard)@[key].filter(
                |at: u64| now - at < window_secs * 1_000_000_000,
            );
            &&& r <==> counted.len() < max_attempts
            &&& final(guard)@.contains_key(key)
            &&& final(guard)@[key] == if r {
                counted.push(now)
            } else {
                counted
            }
        }),
{
    attempts_in_the_window_are_kept(old(guard)@[text::lowercase(username@)], now, window_secs);
}

/// The first attempt under a name is let through, unless none is allowed.
pub proof fn first_attempts_are_let_through(
    guard: &mut LoginGuard,
    username: &str,
    now: u64,
    window_secs: u64,
    max_attempts: usize,
    r: bool,
)
    requires
        call_ensures(
            LoginGuard::try_attempt,
            (guard, username, now, window_secs, max_attempts),
            r,
        ),
        !old(guard)@.contains_key(text::lowercase(username@)),
    ensures
        r <==> max_attempts > 0,
{
}

/// Clearing a name forgets what is under it, and nothing else.
pub proof fn clearing_forgets_one_name(guard: &mut LoginGuard, username: &str, other: Seq<char>)
    requires
        call_ensures(LoginGuard::clear, (guard, username), ()),
        other != text::lowercase(username@),
    ensures
        !final(guard)@.contains_key(text::lowercase(username@)),
        final(guard)@.contains_key(other) <==> old(guard)@.contains_key(other),
        old(guard)@.contains_key(other) ==> final(guard)@[other] == old(guard)@[other],
{
}

} // verus!
