//! The loop guard and the memory of what was sent.
//!
//! Content that comes from a peer is written to the local clipboard, where the
//! watcher sees it as a change. The guard remembers for a short while which
//! content was applied, so that this echo is not sent back, and which content was
//! sent, so that it is not sent twice.
//!
//! Times are nanoseconds of a monotonic clock.
use vstd::prelude::*;

use crate::clock::Clock;
use crate::text;

verus! {

/// How long a hash is remembered, in nanoseconds: two seconds.
pub const GUARD_WINDOW: u128 = 2_000_000_000;

/// A hash and when it was recorded.
struct Mark {
    hash: String,
    at: u128,
}

/// A list of hashes with their times, as a mathematical value.
spec fn marks_view(marks: Seq<Mark>) -> Seq<(Seq<char>, u128)> {
    Seq::new(marks.len(), |i: int| (marks[i].hash@, marks[i].at))
}

/// Whether a mark of a time is still remembered.
pub open spec fn is_fresh(at: u128, now: u128) -> bool {
    now - at < GUARD_WINDOW
}

/// The marks that are still remembered, in their order.
pub open spec fn fresh(marks: Seq<(Seq<char>, u128)>, now: u128) -> Seq<(Seq<char>, u128)> {
    marks.filter(|mark: (Seq<char>, u128)| is_fresh(mark.1, now))
}

/// The marks of other hashes, in their order.
pub open spec fn without(marks: Seq<(Seq<char>, u128)>, hash: Seq<char>) -> Seq<(Seq<char>, u128)> {
    marks.filter(|mark: (Seq<char>, u128)| mark.0 != hash)
}

/// Whether a hash has a mark that is still remembered.
pub open spec fn remembers(marks: Seq<(Seq<char>, u128)>, hash: Seq<char>, now: u128) -> bool {
    exists|i: int| 0 <= i < marks.len() && (#[trigger] marks[i]).0 == hash && is_fresh(marks[i].1, now)
}

/// The marks that a list of hashes adds: one for each that is not empty.
pub open spec fn new_marks(hashes: Seq<Seq<char>>, now: u128) -> Seq<(Seq<char>, u128)>
    decreases hashes.len(),
{
    if hashes.len() == 0 {
        Seq::empty()
    } else {
        let earlier = new_marks(hashes.drop_last(), now);
        if hashes.last().len() == 0 {
            earlier
        } else {
            earlier.push((hashes.last(), now))
        }
    }
}

/// A list of strings as mathematical values.
pub open spec fn texts(strings: Seq<String>) -> Seq<Seq<char>> {
    Seq::new(strings.len(), |i: int| strings[i]@)
}

/// What the guard remembers.
pub struct GuardView {
    pub applied: Seq<(Seq<char>, u128)>,
    pub sent: Seq<(Seq<char>, u128)>,
    /// The clock that the times are read from.
    pub clock: Clock,
}

impl GuardView {
    /// The guard after it has forgotten what is too old.
    pub open spec fn purged(self, now: u128) -> GuardView {
        GuardView { applied: fresh(self.applied, now), sent: fresh(self.sent, now), ..self }
    }
}

/// Remembers hashes of content that was just applied and just sent.
pub struct SyncGuard {
    applied: Vec<Mark>,
    sent: Vec<Mark>,
    clock: Clock,
}

impl View for SyncGuard {
    type V = GuardView;

    closed spec fn view(&self) -> GuardView {
        GuardView {
            applied: marks_view(self.applied@),
            sent: marks_view(self.sent@),
            clock: self.clock,
        }
    }
}

proof fn lemma_fresh_remembers(marks: Seq<(Seq<char>, u128)>, hash: Seq<char>, now: u128)
    ensures
        remembers(marks, hash, now) <==> exists|i: int|
            0 <= i < fresh(marks, now).len() && (#[trigger] fresh(marks, now)[i]).0 == hash,
    decreases marks.len(),
{
    reveal(Seq::filter);
    if marks.len() > 0 {
        let rest = marks.drop_last();
        let last = marks.len() - 1;
        let kept = fresh(rest, now);
        lemma_fresh_remembers(rest, hash, now);
        if remembers(marks, hash, now) {
            let i = choose|i: int|
                0 <= i < marks.len() && (#[trigger] marks[i]).0 == hash && is_fresh(marks[i].1, now);
            if i < last {
                assert(rest[i] == marks[i]);
                let j = choose|j: int| 0 <= j < kept.len() && (#[trigger] kept[j]).0 == hash;
                assert(fresh(marks, now)[j] == kept[j]);
            } else {
                assert(fresh(marks, now)[kept.len() as int] == marks[last]);
            }
        }
        if exists|i: int| 0 <= i < fresh(marks, now).len() && (#[trigger] fresh(marks, now)[i]).0 == hash {
            let j = choose|j: int|
                0 <= j < fresh(marks, now).len() && (#[trigger] fresh(marks, now)[j]).0 == hash;
            if j < kept.len() {
                assert(kept[j].0 == hash);
                let i = choose|i: int|
                    0 <= i < rest.len() && (#[trigger] rest[i]).0 == hash && is_fresh(rest[i].1, now);
                assert(marks[i] == rest[i]);
            } else {
                assert(marks[last].0 == hash);
            }
        }
    }
}

/// What is still remembered at a later time was still remembered at an earlier
/// one, so forgetting at the earlier time makes no difference at the later.
pub proof fn lemma_fresh_earlier(
    marks: Seq<(Seq<char>, u128)>,
    hash: Seq<char>,
    earlier: u128,
    later: u128,
)
    requires
        earlier <= later,
    ensures
        remembers(fresh(marks, earlier), hash, later) <==> remembers(marks, hash, later),
    decreases marks.len(),
{
    reveal(Seq::filter);
    if marks.len() > 0 {
        let rest = marks.drop_last();
        let last = marks.last();
        lemma_fresh_earlier(rest, hash, earlier, later);
        assert(marks =~= rest.push(last));
        lemma_remembers_push(rest, last, hash, later);
        lemma_remembers_push(fresh(rest, earlier), last, hash, later);
    }
}

/// One more mark.
pub proof fn lemma_remembers_push(
    marks: Seq<(Seq<char>, u128)>,
    mark: (Seq<char>, u128),
    hash: Seq<char>,
    now: u128,
)
    ensures
        remembers(marks.push(mark), hash, now) <==> remembers(marks, hash, now) || (mark.0 == hash
            && is_fresh(mark.1, now)),
{
    let more = marks.push(mark);
    if remembers(marks, hash, now) {
        let i = choose|i: int|
            0 <= i < marks.len() && (#[trigger] marks[i]).0 == hash && is_fresh(marks[i].1, now);
        assert(more[i] == marks[i]);
    }
    if mark.0 == hash && is_fresh(mark.1, now) {
        assert(more[marks.len() as int] == mark);
    }
    if remembers(more, hash, now) {
        let i = choose|i: int|
            0 <= i < more.len() && (#[trigger] more[i]).0 == hash && is_fresh(more[i].1, now);
        if i < marks.len() {
            assert(marks[i] == more[i]);
        }
    }
}

/// Forgetting twice at the same time is forgetting once.
pub proof fn lemma_fresh_twice(marks: Seq<(Seq<char>, u128)>, now: u128)
    ensures
        fresh(fresh(marks, now), now) == fresh(marks, now),
    decreases marks.len(),
{
    reveal(Seq::filter);
    if marks.len() > 0 {
        let rest = marks.drop_last();
        lemma_fresh_twice(rest, now);
        if is_fresh(marks.last().1, now) {
            assert(fresh(marks, now).drop_last() =~= fresh(rest, now));
        }
    }
}

/// What is forgotten of one hash is all of it, and nothing of others.
pub proof fn lemma_without(
    marks: Seq<(Seq<char>, u128)>,
    cleared: Seq<char>,
    hash: Seq<char>,
    now: u128,
)
    ensures
        remembers(without(marks, cleared), hash, now) <==> remembers(marks, hash, now) && hash
            != cleared,
    decreases marks.len(),
{
    reveal(Seq::filter);
    if marks.len() > 0 {
        let rest = marks.drop_last();
        let last = marks.last();
        lemma_without(rest, cleared, hash, now);
        assert(marks =~= rest.push(last));
        lemma_remembers_push(rest, last, hash, now);
        lemma_remembers_push(without(rest, cleared), last, hash, now);
    }
}

/// The marks that are still fresh.
fn keep_fresh(marks: &Vec<Mark>, now: u128) -> (kept: Vec<Mark>)
    ensures
        marks_view(kept@) == fresh(marks_view(marks@), now),
{
    let mut kept: Vec<Mark> = Vec::new();
    let mut i: usize = 0;
    let ghost all = marks_view(marks@);
    proof {
        reveal(Seq::filter);
        assert(all.take(0) =~= Seq::empty());
        assert(marks_view(kept@) =~= fresh(all.take(0), now));
    }
    while i < marks.len()
        invariant
            i <= marks@.len(),
            all == marks_view(marks@),
            marks_view(kept@) == fresh(all.take(i as int), now),
        decreases marks@.len() - i,
    {
        let mark = &marks[i];
        proof {
            reveal(Seq::filter);
            assert(all.take(i + 1).drop_last() =~= all.take(i as int));
            assert(all.take(i + 1).last() == (mark.hash@, mark.at));
        }
        let ghost before = kept@;
        if now < mark.at || now - mark.at < GUARD_WINDOW {
            kept.push(Mark { hash: mark.hash.clone(), at: mark.at });
            proof {
                assert(marks_view(kept@) =~= marks_view(before).push((mark.hash@, mark.at)));
            }
        }
        i += 1;
    }
    proof {
        assert(all.take(all.len() as int) =~= all);
    }
    kept
}

/// The marks of other hashes.
fn keep_others(marks: &Vec<Mark>, hash: &str) -> (kept: Vec<Mark>)
    ensures
        marks_view(kept@) == without(marks_view(marks@), hash@),
{
    let mut kept: Vec<Mark> = Vec::new();
    let mut i: usize = 0;
    let ghost all = marks_view(marks@);
    proof {
        reveal(Seq::filter);
        assert(all.take(0) =~= Seq::empty());
        assert(marks_view(kept@) =~= without(all.take(0), hash@));
    }
    while i < marks.len()
        invariant
            i <= marks@.len(),
            all == marks_view(marks@),
            marks_view(kept@) == without(all.take(i as int), hash@),
        decreases marks@.len() - i,
    {
        let mark = &marks[i];
        proof {
            reveal(Seq::filter);
            assert(all.take(i + 1).drop_last() =~= all.take(i as int));
            assert(all.take(i + 1).last() == (mark.hash@, mark.at));
        }
        let ghost before = kept@;
        if !text::same_text(mark.hash.as_str(), hash) {
            kept.push(Mark { hash: mark.hash.clone(), at: mark.at });
            proof {
                assert(marks_view(kept@) =~= marks_view(before).push((mark.hash@, mark.at)));
            }
        }
        i += 1;
    }
    proof {
        assert(all.take(all.len() as int) =~= all);
    }
    kept
}

/// Whether a hash has a mark.
fn has_mark(marks: &Vec<Mark>, hash: &str) -> (found: bool)
    ensures
        found == exists|i: int|
            0 <= i < marks_view(marks@).len() && (#[trigger] marks_view(marks@)[i]).0 == hash@,
{
    let mut i: usize = 0;
    while i < marks.len()
        invariant
            i <= marks@.len(),
            forall|j: int| 0 <= j < i ==> (#[trigger] marks_view(marks@)[j]).0 != hash@,
        decreases marks@.len() - i,
    {
        if text::same_text(marks[i].hash.as_str(), hash) {
            assert(marks_view(marks@)[i as int].0 == hash@);
            return true;
        }
        i += 1;
    }
    false
}

impl SyncGuard {
    /// A guard that remembers nothing.
    pub fn new() -> (guard: Self)
        ensures
            guard@.applied == Seq::<(Seq<char>, u128)>::empty(),
            guard@.sent == Seq::<(Seq<char>, u128)>::empty(),
    {
        let guard = SyncGuard { applied: Vec::new(), sent: Vec::new(), clock: Clock::start() };
        proof {
            assert(guard@.applied =~= Seq::empty());
            assert(guard@.sent =~= Seq::empty());
        }
        guard
    }

    /// The time of the guard's clock, in nanoseconds.
    pub fn now(&self) -> (now: u128) {
        self.clock.nanos()
    }

    /// Forgets what is too old at a given time.
    pub fn purge_at(&mut self, now: u128)
        ensures
            final(self)@ == old(self)@.purged(now),
    {
        self.applied = keep_fresh(&self.applied, now);
        self.sent = keep_fresh(&self.sent, now);
    }

    /// Forgets what is too old.
    pub fn purge(&mut self)
        ensures
            exists|now: u128| final(self)@ == #[trigger] old(self)@.purged(now),
    {
        let now: u128 = self.now();
        self.purge_at(now);
    }

    /// Whether content with this hash was applied within the guard window before
    /// a given time.
    pub fn is_applied_at(&mut self, hash: &str, now: u128) -> (applied: bool)
        ensures
            final(self)@ == old(self)@.purged(now),
            applied == remembers(old(self)@.applied, hash@, now),
    {
        proof {
            lemma_fresh_remembers(self@.applied, hash@, now);
        }
        self.purge_at(now);
        has_mark(&self.applied, hash)
    }

    /// Whether content with this hash was applied within the guard window.
    pub fn is_applied(&mut self, hash: &str) -> (applied: bool)
        ensures
            exists|now: u128|
                final(self)@ == #[trigger] old(self)@.purged(now) && applied == remembers(
                    old(self)@.applied,
                    hash@,
                    now,
                ),
    {
        let now: u128 = self.now();
        self.is_applied_at(hash, now)
    }

    /// Records hashes as applied at a given time. An empty hash is no content and
    /// is left out.
    pub fn mark_applied_at(&mut self, hashes: &[String], now: u128)
        ensures
            final(self)@ == (GuardView {
                applied: old(self)@.applied + new_marks(texts(hashes@), now),
                ..old(self)@
            }),
    {
        let ghost all = texts(hashes@);
        let mut i: usize = 0;
        proof {
            assert(all.take(0) =~= Seq::empty());
            assert(self@.applied =~= old(self)@.applied + new_marks(all.take(0), now));
        }
        while i < hashes.len()
            invariant
                i <= hashes@.len(),
                all == texts(hashes@),
                self@.applied == old(self)@.applied + new_marks(all.take(i as int), now),
                self@.sent == old(self)@.sent,
                self@.clock == old(self)@.clock,
            decreases hashes@.len() - i,
        {
            proof {
                assert(all.take(i + 1).drop_last() =~= all.take(i as int));
                assert(all.take(i + 1).last() == hashes@[i as int]@);
            }
            let ghost before = self@;
            if !hashes[i].as_str().is_empty() {
                self.applied.push(Mark { hash: hashes[i].clone(), at: now });
                proof {
                    assert(self@.applied =~= before.applied.push((hashes@[i as int]@, now)));
                    assert(self@.applied =~= old(self)@.applied + new_marks(all.take(i + 1), now));
                }
            }
            i += 1;
        }
        proof {
            assert(all.take(all.len() as int) =~= all);
        }
    }

    /// Records hashes as just applied.
    pub fn mark_applied(&mut self, hashes: &[String])
        ensures
            exists|now: u128|
                final(self)@ == (GuardView {
                    applied: old(self)@.applied + #[trigger] new_marks(texts(hashes@), now),
                    ..old(self)@
                }),
    {
        let now: u128 = self.now();
        self.mark_applied_at(hashes, now);
    }

    /// Forgets that a hash was applied, however often (after a failed write).
    pub fn clear_applied(&mut self, hash: &str)
        ensures
            final(self)@ == (GuardView {
                applied: without(old(self)@.applied, hash@),
                ..old(self)@
            }),
    {
        self.applied = keep_others(&self.applied, hash);
    }

    /// Whether content with this hash was sent within the guard window before a
    /// given time.
    pub fn was_recently_sent_at(&mut self, hash: &str, now: u128) -> (sent: bool)
        ensures
            final(self)@ == old(self)@.purged(now),
            sent == remembers(old(self)@.sent, hash@, now),
    {
        proof {
            lemma_fresh_remembers(self@.sent, hash@, now);
        }
        self.purge_at(now);
        has_mark(&self.sent, hash)
    }

    /// Whether content with this hash was sent within the guard window.
    pub fn was_recently_sent(&mut self, hash: &str) -> (sent: bool)
        ensures
            exists|now: u128|
                final(self)@ == #[trigger] old(self)@.purged(now) && sent == remembers(
                    old(self)@.sent,
                    hash@,
                    now,
                ),
    {
        let now: u128 = self.now();
        self.was_recently_sent_at(hash, now)
    }

    /// Records a hash as sent at a given time.
    pub fn mark_sent_at(&mut self, hash: &str, now: u128)
        ensures
            final(self)@ == (GuardView {
                sent: old(self)@.sent.push((hash@, now)),
                ..old(self)@
            }),
    {
        self.sent.push(Mark { hash: hash.to_string(), at: now });
        proof {
            assert(self@.sent =~= old(self)@.sent.push((hash@, now)));
        }
    }

    /// Records a hash as just sent.
    pub fn mark_sent(&mut self, hash: &str)
        ensures
            exists|now: u128|
                final(self)@ == (GuardView {
                    sent: #[trigger] old(self)@.sent.push((hash@, now)),
                    ..old(self)@
                }),
    {
        let now: u128 = self.now();
        self.mark_sent_at(hash, now);
    }
}

/// A mark is remembered for two seconds: at every time before two thousand million
/// nanoseconds have passed since it was made, and at none from then on.
pub proof fn law_remembered_for_two_seconds(at: u128, now: u128)
    ensures
        is_fresh(at, now) <==> now < at + 2_000_000_000,
{
}

/// A hash is remembered just if some mark of it is younger than two seconds.
pub proof fn law_remembers(marks: Seq<(Seq<char>, u128)>, hash: Seq<char>, now: u128)
    ensures
        remembers(marks, hash, now) <==> exists|i: int|
            0 <= i < marks.len() && (#[trigger] marks[i]).0 == hash && now < marks[i].1
                + 2_000_000_000,
{
    if remembers(marks, hash, now) {
        let i = choose|i: int|
            0 <= i < marks.len() && (#[trigger] marks[i]).0 == hash && is_fresh(marks[i].1, now);
        assert(marks[i].0 == hash && now < marks[i].1 + 2_000_000_000);
    }
    if exists|i: int|
        0 <= i < marks.len() && (#[trigger] marks[i]).0 == hash && now < marks[i].1 + 2_000_000_000 {
        let i = choose|i: int|
            0 <= i < marks.len() && (#[trigger] marks[i]).0 == hash && now < marks[i].1
                + 2_000_000_000;
        assert(marks[i].0 == hash && is_fresh(marks[i].1, now));
    }
}

/// Forgetting drops the marks of two seconds and older, of either list, and keeps
/// the others in their order; the clock goes on.
pub proof fn law_purge_keeps_two_seconds(guard: GuardView, now: u128)
    ensures
        guard.purged(now).applied == guard.applied.filter(
            |mark: (Seq<char>, u128)| now < mark.1 + 2_000_000_000,
        ),
        guard.purged(now).sent == guard.sent.filter(
            |mark: (Seq<char>, u128)| now < mark.1 + 2_000_000_000,
        ),
        guard.purged(now).clock == guard.clock,
{
    let kept = |mark: (Seq<char>, u128)| is_fresh(mark.1, now);
    let young = |mark: (Seq<char>, u128)| now < mark.1 + 2_000_000_000;
    assert(kept =~= young);
}

/// What a filter keeps comes from the list, and satisfies the filter.
pub proof fn lemma_filter_origin(
    marks: Seq<(Seq<char>, u128)>,
    keep: spec_fn((Seq<char>, u128)) -> bool,
    i: int,
)
    requires
        0 <= i < marks.filter(keep).len(),
    ensures
        keep(marks.filter(keep)[i]),
        exists|j: int| 0 <= j < marks.len() && #[trigger] marks[j] == marks.filter(keep)[i],
    decreases marks.len(),
{
    reveal(Seq::filter);
    if marks.len() > 0 {
        let rest = marks.drop_last();
        let kept = rest.filter(keep);
        if i < kept.len() {
            lemma_filter_origin(rest, keep, i);
            let j = choose|j: int| 0 <= j < rest.len() && #[trigger] rest[j] == kept[i];
            assert(marks[j] == rest[j]);
            assert(marks.filter(keep)[i] == kept[i]);
        } else {
            assert(marks[marks.len() - 1] == marks.last());
            assert(marks.filter(keep)[i] == marks.last());
        }
    }
}

/// What clearing a hash leaves are the marks of other hashes.
proof fn lemma_without_members(
    marks: Seq<(Seq<char>, u128)>,
    hash: Seq<char>,
    mark: (Seq<char>, u128),
)
    ensures
        without(marks, hash).contains(mark) <==> marks.contains(mark) && mark.0 != hash,
    decreases marks.len(),
{
    reveal(Seq::filter);
    if marks.len() > 0 {
        let rest = marks.drop_last();
        let last = marks.last();
        lemma_without_members(rest, hash, mark);
        assert(marks =~= rest.push(last));
        lemma_push_contains(rest, last, mark);
        lemma_push_contains(without(rest, hash), last, mark);
    }
}

proof fn lemma_push_contains(
    marks: Seq<(Seq<char>, u128)>,
    last: (Seq<char>, u128),
    mark: (Seq<char>, u128),
)
    ensures
        marks.push(last).contains(mark) <==> marks.contains(mark) || mark == last,
{
    let more = marks.push(last);
    if marks.contains(mark) {
        let i = choose|i: int| 0 <= i < marks.len() && marks[i] == mark;
        assert(more[i] == mark);
    }
    if mark == last {
        assert(more[marks.len() as int] == mark);
    }
    if more.contains(mark) && mark != last {
        let i = choose|i: int| 0 <= i < more.len() && more[i] == mark;
        assert(marks[i] == mark);
    }
}

/// Clearing a hash drops every mark of it and keeps the others, in their order: of a
/// list that is longer by a mark, the same is left, and that mark behind it unless it
/// is one of the hash.
pub proof fn law_clearing_drops_one_hash(
    marks: Seq<(Seq<char>, u128)>,
    hash: Seq<char>,
    last: (Seq<char>, u128),
)
    ensures
        forall|mark: (Seq<char>, u128)| #[trigger]
            without(marks, hash).contains(mark) <==> marks.contains(mark) && mark.0 != hash,
        without(Seq::empty(), hash) == Seq::<(Seq<char>, u128)>::empty(),
        last.0 == hash ==> without(marks.push(last), hash) == without(marks, hash),
        last.0 != hash ==> without(marks.push(last), hash) == without(marks, hash).push(last),
{
    assert forall|mark: (Seq<char>, u128)| #[trigger]
        without(marks, hash).contains(mark) <==> marks.contains(mark) && mark.0 != hash by {
        lemma_without_members(marks, hash, mark);
    }
    reveal(Seq::filter);
    assert(marks.push(last).drop_last() =~= marks);
    assert(without(Seq::empty(), hash) =~= Seq::empty());
}

/// Recording hashes adds one mark, of the given time, for each hash that is not
/// empty, in their order.
pub proof fn law_every_hash_is_marked(hashes: Seq<Seq<char>>, now: u128)
    ensures
        new_marks(hashes, now) == hashes.filter(|hash: Seq<char>| hash.len() > 0).map_values(
            |hash: Seq<char>| (hash, now),
        ),
    decreases hashes.len(),
{
    reveal(Seq::filter);
    let named = |hash: Seq<char>| hash.len() > 0;
    let stamp = |hash: Seq<char>| (hash, now);
    if hashes.len() > 0 {
        law_every_hash_is_marked(hashes.drop_last(), now);
        if hashes.last().len() > 0 {
            assert(hashes.filter(named) =~= hashes.drop_last().filter(named).push(hashes.last()));
        }
    }
    assert(new_marks(hashes, now) =~= hashes.filter(named).map_values(stamp));
}

/// Strings stand for their texts, each in its place.
pub proof fn law_texts(strings: Seq<String>, i: int)
    ensures
        texts(strings).len() == strings.len(),
        0 <= i < strings.len() ==> texts(strings)[i] == strings[i]@,
{
}

} // verus!
