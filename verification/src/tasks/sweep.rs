//! One pass of the reaper over a hash held in memory.

use crate::store::{has_key, key_set, unique_keys, without, Field, MemoryHash};
use crate::store::{lemma_without_fields, lemma_without_len, lemma_without_twice};
use crate::tasks::error::Task1Error;
use crate::tasks::redis_fields_deletion::{
    is_expired, EmptyGeneratable, Reaper, ReaperAction, ReaperEvent, ReaperPhase, ReaperState,
    Task1Config, Timestampable,
};
use vstd::prelude::*;

verus! {

/// A key that can be read from and written to the store as a text.
pub trait Keyable: EmptyGeneratable {
    /// The text under which the key is stored.
    spec fn text(&self) -> Seq<char>;

    fn from_stored(raw: String) -> (key: Self)
        ensures
            key.text() == raw@,
    ;

    fn to_stored(&self) -> (raw: String)
        ensures
            raw@ == self.text(),
    ;
}

/// A record that can be read back from the text the store holds.
pub trait Expirable: Timestampable + Sized {
    /// The creation time of the record that `raw` decodes to, if it decodes.
    spec fn decoded_timestamp(raw: Seq<char>) -> Option<i64>;

    fn decode(raw: &str) -> (record: Option<Self>)
        ensures
            match record {
                Some(r) => Self::decoded_timestamp(raw@) == Some(r.created_at()),
                None => Self::decoded_timestamp(raw@) is None,
            },
    ;
}

/// Whether the value of `field` decodes to a record that has expired.
pub open spec fn expired_field<F: Expirable>(field: Field, now: int, expiry_time: int) -> bool {
    match F::decoded_timestamp(field.1) {
        Some(created) => is_expired(now, expiry_time, created as int),
        None => false,
    }
}

/// How many fields a scan reads: all up to the first whose value does not
/// decode.
pub open spec fn readable<F: Expirable>(fields: Seq<Field>) -> nat
    decreases fields.len(),
{
    if fields.len() == 0 || F::decoded_timestamp(fields[0].1) is None {
        0
    } else {
        1 + readable::<F>(fields.drop_first())
    }
}

/// The keys of the expired fields among `fields`.
pub open spec fn expired_keys<F: Expirable>(fields: Seq<Field>, now: int, expiry_time: int) -> Set<
    Seq<char>,
> {
    Set::new(
        |k: Seq<char>|
            exists|i: int|
                0 <= i < fields.len() && (#[trigger] fields[i]).0 == k && expired_field::<F>(
                    fields[i],
                    now,
                    expiry_time,
                ),
    )
}

/// How many of `fields` have expired.
pub open spec fn expired_count<F: Expirable>(fields: Seq<Field>, now: int, expiry_time: int) -> nat
    decreases fields.len(),
{
    if fields.len() == 0 {
        0
    } else {
        expired_count::<F>(fields.drop_last(), now, expiry_time) + if expired_field::<F>(
            fields.last(),
            now,
            expiry_time,
        ) {
            1nat
        } else {
            0nat
        }
    }
}

/// The sizes of the deletions that remove `count` keys in batches of
/// `bulk`: full batches first, then what is left, if anything is.
pub open spec fn batches_of(count: nat, bulk: nat) -> Seq<usize>
    recommends
        bulk >= 1,
{
    let full = Seq::new(count / bulk, |i: int| bulk as usize);
    if count % bulk == 0 {
        full
    } else {
        full.push((count % bulk) as usize)
    }
}

/// The texts of the keys in `keys`.
pub open spec fn text_set<T: Keyable>(keys: Seq<T>) -> Set<Seq<char>> {
    Set::new(|k: Seq<char>| exists|i: int| 0 <= i < keys.len() && (#[trigger] keys[i]).text() == k)
}

/// A scan that read the first `n` fields and stopped there read
/// `readable` fields.
pub proof fn lemma_readable<F: Expirable>(fields: Seq<Field>, n: nat)
    requires
        n <= fields.len(),
        forall|j: int| 0 <= j < n ==> F::decoded_timestamp((#[trigger] fields[j]).1) is Some,
        n < fields.len() ==> F::decoded_timestamp(fields[n as int].1) is None,
    ensures
        readable::<F>(fields) == n,
    decreases n,
{
    if n > 0 {
        let rest = fields.drop_first();
        assert(F::decoded_timestamp(fields[0].1) is Some);
        assert forall|j: int| 0 <= j < n - 1 implies F::decoded_timestamp((#[trigger] rest[j]).1) is Some by {
            assert(rest[j] == fields[j + 1]);
        }
        if n < fields.len() {
            assert(rest[n - 1] == fields[n as int]);
        }
        lemma_readable::<F>(rest, (n - 1) as nat);
    }
}

/// Counting the expired fields one field further.
proof fn lemma_expired_count_step<F: Expirable>(fields: Seq<Field>, i: int, now: int, expiry_time: int)
    requires
        0 <= i < fields.len(),
    ensures
        expired_count::<F>(fields.take(i + 1), now, expiry_time) == expired_count::<F>(
            fields.take(i),
            now,
            expiry_time,
        ) + if expired_field::<F>(fields[i], now, expiry_time) {
            1nat
        } else {
            0nat
        },
{
    assert(fields.take(i + 1).drop_last() =~= fields.take(i));
    assert(fields.take(i + 1).last() == fields[i]);
}

/// Whether `key` is the key of an expired field among `fields[lo..hi]`.
spec fn expired_at<F: Expirable>(
    fields: Seq<Field>,
    lo: int,
    hi: int,
    now: int,
    expiry_time: int,
    key: Seq<char>,
) -> bool {
    exists|j: int|
        lo <= j < hi && (#[trigger] fields[j]).0 == key && expired_field::<F>(
            fields[j],
            now,
            expiry_time,
        )
}

/// Whether one of `keys` has the text `text`.
spec fn holds_text<T: Keyable>(keys: Seq<T>, text: Seq<char>) -> bool {
    exists|a: int| 0 <= a < keys.len() && (#[trigger] keys[a]).text() == text
}

/// `pending` holds, once each, the keys of the expired fields among
/// `fields[lo..hi]`.
spec fn gathered_from<T: Keyable, F: Expirable>(
    pending: Seq<T>,
    fields: Seq<Field>,
    lo: int,
    hi: int,
    now: int,
    expiry_time: int,
) -> bool {
    &&& forall|a: int|
        0 <= a < pending.len() ==> expired_at::<F>(
            fields,
            lo,
            hi,
            now,
            expiry_time,
            (#[trigger] pending[a]).text(),
        )
    &&& forall|j: int|
        lo <= j < hi && expired_field::<F>(#[trigger] fields[j], now, expiry_time) ==> holds_text(
            pending,
            fields[j].0,
        )
    &&& forall|a: int, b: int|
        0 <= a < b < pending.len() ==> (#[trigger] pending[a]).text() != (#[trigger] pending[b]).text()
}

/// What one pass did: how many fields the scan read, and the size of each
/// deletion in the order they were made.
#[derive(Debug)]
pub struct PassReport {
    pub scanned: usize,
    pub batches: Vec<usize>,
}

/// Deletes the gathered keys from `store` in one call; returns how many
/// fields the store removed.
fn flush<T: Keyable>(reaper: &Reaper<T>, store: &mut MemoryHash, count: usize) -> (removed: usize)
    requires
        reaper.wf(),
        count == reaper@.pending.len(),
        old(store).wf(),
    ensures
        final(store).wf(),
        final(store)@ == without(old(store)@, text_set(reaper@.pending)),
        removed == old(store)@.len() - final(store)@.len(),
{
    proof {
        reaper.lemma_pending_is_buffer_front();
    }
    let batch = reaper.batch();
    let mut keys: Vec<String> = Vec::new();
    let mut j: usize = 0;
    while j < count
        invariant
            j <= count <= batch@.len(),
            keys@.len() == j,
            forall|a: int| 0 <= a < j ==> (#[trigger] keys@[a])@ == batch@[a].text(),
        decreases count - j,
    {
        keys.push(batch[j].to_stored());
        j = j + 1;
    }
    proof {
        let pending = reaper@.pending;
        assert forall|k: Seq<char>| key_set(keys@).contains(k) <==> text_set(pending).contains(k) by {
            if key_set(keys@).contains(k) {
                let a = choose|a: int| 0 <= a < keys@.len() && (#[trigger] keys@[a])@ == k;
                assert(pending[a].text() == k);
            }
            if text_set(pending).contains(k) {
                let a = choose|a: int| 0 <= a < pending.len() && (#[trigger] pending[a]).text() == k;
                assert(keys@[a]@ == k);
            }
        }
        assert(key_set(keys@) =~= text_set(pending));
    }
    store.bulk_delete(&keys)
}

/// The gathered keys are distinct keys of the store, so deleting them
/// removes exactly as many fields as there are keys, and leaves the store
/// without every expired key up to `hi`.
proof fn lemma_flush_exact<T: Keyable, F: Expirable>(
    all: Seq<Field>,
    pending: Seq<T>,
    lo: int,
    hi: int,
    now: int,
    expiry_time: int,
)
    requires
        unique_keys(all),
        0 <= lo <= hi <= all.len(),
        gathered_from::<T, F>(pending, all, lo, hi, now, expiry_time),
    ensures
        ({
            let before = without(all, expired_keys::<F>(all.take(lo), now, expiry_time));
            let after = without(before, text_set(pending));
            &&& after.len() == before.len() - pending.len()
            &&& after == without(all, expired_keys::<F>(all.take(hi), now, expiry_time))
        }),
{
    let gone = expired_keys::<F>(all.take(lo), now, expiry_time);
    let before = without(all, gone);
    let texts = Seq::new(pending.len(), |a: int| pending[a].text());
    let doomed = text_set(pending);
    lemma_without_fields(all, gone);
    assert forall|a: int| 0 <= a < texts.len() implies has_key(before, #[trigger] texts[a]) by {
        assert(expired_at::<F>(all, lo, hi, now, expiry_time, pending[a].text()));
        let j = choose|j: int|
            lo <= j < hi && (#[trigger] all[j]).0 == pending[a].text() && expired_field::<F>(
                all[j],
                now,
                expiry_time,
            );
        assert(has_key(all, texts[a]));
        if gone.contains(texts[a]) {
            let g = choose|g: int|
                0 <= g < all.take(lo).len() && (#[trigger] all.take(lo)[g]).0 == texts[a]
                    && expired_field::<F>(all.take(lo)[g], now, expiry_time);
            assert(all[g].0 == all[j].0);
            assert(g < j);
        }
    }
    assert(texts.no_duplicates()) by {
        assert forall|a: int, b: int| 0 <= a < texts.len() && 0 <= b < texts.len() && a
            != b implies texts[a] != texts[b] by {
            if a < b {
                assert(pending[a].text() != pending[b].text());
            } else {
                assert(pending[b].text() != pending[a].text());
            }
        }
    }
    assert forall|k: Seq<char>| doomed.contains(k) <==> texts.contains(k) by {
        if doomed.contains(k) {
            let a = choose|a: int| 0 <= a < pending.len() && (#[trigger] pending[a]).text() == k;
            assert(texts[a] == k);
        }
        if texts.contains(k) {
            let a = choose|a: int| 0 <= a < texts.len() && texts[a] == k;
            assert(pending[a].text() == k);
        }
    }
    lemma_without_len(before, texts, doomed);
    lemma_without_twice(all, gone, doomed);
    let target = expired_keys::<F>(all.take(hi), now, expiry_time);
    assert forall|k: Seq<char>| gone.union(doomed).contains(k) <==> target.contains(k) by {
        if gone.contains(k) {
            let g = choose|g: int|
                0 <= g < all.take(lo).len() && (#[trigger] all.take(lo)[g]).0 == k
                    && expired_field::<F>(all.take(lo)[g], now, expiry_time);
            assert(all.take(hi)[g] == all.take(lo)[g]);
        }
        if doomed.contains(k) {
            let a = choose|a: int| 0 <= a < pending.len() && (#[trigger] pending[a]).text() == k;
            assert(expired_at::<F>(all, lo, hi, now, expiry_time, pending[a].text()));
            let j = choose|j: int|
                lo <= j < hi && (#[trigger] all[j]).0 == pending[a].text() && expired_field::<F>(
                    all[j],
                    now,
                    expiry_time,
                );
            assert(all.take(hi)[j] == all[j]);
        }
        if target.contains(k) {
            let j = choose|j: int|
                0 <= j < all.take(hi).len() && (#[trigger] all.take(hi)[j]).0 == k
                    && expired_field::<F>(all.take(hi)[j], now, expiry_time);
            if j < lo {
                assert(all.take(lo)[j] == all.take(hi)[j]);
            } else {
                assert(all[j] == all.take(hi)[j]);
                assert(holds_text(pending, all[j].0));
            }
        }
    }
    assert(gone.union(doomed) =~= target);
}

/// Gathering the key of an expired field keeps `gathered_from` true one
/// field further.
proof fn lemma_gathered_push<T: Keyable, F: Expirable>(
    pending: Seq<T>,
    all: Seq<Field>,
    lo: int,
    i: int,
    now: int,
    expiry_time: int,
    key: T,
)
    requires
        unique_keys(all),
        0 <= lo <= i < all.len(),
        gathered_from::<T, F>(pending, all, lo, i, now, expiry_time),
        key.text() == all[i].0,
        expired_field::<F>(all[i], now, expiry_time),
    ensures
        gathered_from::<T, F>(pending.push(key), all, lo, i + 1, now, expiry_time),
{
    let more = pending.push(key);
    assert forall|a: int| 0 <= a < more.len() implies expired_at::<F>(
        all,
        lo,
        i + 1,
        now,
        expiry_time,
        (#[trigger] more[a]).text(),
    ) by {
        if a < pending.len() {
            assert(expired_at::<F>(all, lo, i, now, expiry_time, pending[a].text()));
            let j = choose|j: int|
                lo <= j < i && (#[trigger] all[j]).0 == pending[a].text() && expired_field::<F>(
                    all[j],
                    now,
                    expiry_time,
                );
            assert(lo <= j < i + 1 && all[j].0 == more[a].text());
        } else {
            assert(lo <= i < i + 1 && all[i].0 == more[a].text());
        }
    }
    assert forall|j: int|
        lo <= j < i + 1 && expired_field::<F>(#[trigger] all[j], now, expiry_time) implies holds_text(
        more,
        all[j].0,
    ) by {
        if j < i {
            assert(holds_text(pending, all[j].0));
            let a = choose|a: int| 0 <= a < pending.len() && (#[trigger] pending[a]).text() == all[j].0;
            assert(0 <= a < more.len() && more[a].text() == all[j].0);
        } else {
            let a = pending.len() as int;
            assert(0 <= a < more.len() && more[a].text() == all[j].0);
        }
    }
    assert forall|a: int, b: int| 0 <= a < b < more.len() implies (#[trigger] more[a]).text()
        != (#[trigger] more[b]).text() by {
        if b < pending.len() {
            assert(pending[a].text() != pending[b].text());
        } else {
            assert(expired_at::<F>(all, lo, i, now, expiry_time, pending[a].text()));
            let j = choose|j: int|
                lo <= j < i && (#[trigger] all[j]).0 == pending[a].text() && expired_field::<F>(
                    all[j],
                    now,
                    expiry_time,
                );
            assert(all[j].0 != all[i].0);
        }
    }
}

/// Passing over a field that has not expired keeps `gathered_from` true
/// one field further.
proof fn lemma_gathered_skip<T: Keyable, F: Expirable>(
    pending: Seq<T>,
    all: Seq<Field>,
    lo: int,
    i: int,
    now: int,
    expiry_time: int,
)
    requires
        0 <= lo <= i < all.len(),
        gathered_from::<T, F>(pending, all, lo, i, now, expiry_time),
        !expired_field::<F>(all[i], now, expiry_time),
    ensures
        gathered_from::<T, F>(pending, all, lo, i + 1, now, expiry_time),
{
    assert forall|a: int| 0 <= a < pending.len() implies expired_at::<F>(
        all,
        lo,
        i + 1,
        now,
        expiry_time,
        (#[trigger] pending[a]).text(),
    ) by {
        assert(expired_at::<F>(all, lo, i, now, expiry_time, pending[a].text()));
        let j = choose|j: int|
            lo <= j < i && (#[trigger] all[j]).0 == pending[a].text() && expired_field::<F>(
                all[j],
                now,
                expiry_time,
            );
        assert(lo <= j < i + 1);
    }
    assert forall|j: int|
        lo <= j < i + 1 && expired_field::<F>(#[trigger] all[j], now, expiry_time) implies holds_text(
        pending,
        all[j].0,
    ) by {
        assert(j < i);
    }
}

/// Dropping the expired keys of no field changes nothing.
proof fn lemma_without_nothing_at_all<F: Expirable>(all: Seq<Field>, now: int, expiry_time: int)
    ensures
        without(all, expired_keys::<F>(all.take(0), now, expiry_time)) == all,
{
    let none = expired_keys::<F>(all.take(0), now, expiry_time);
    assert forall|i: int| 0 <= i < all.len() implies !none.contains((#[trigger] all[i]).0) by {}
    crate::store::lemma_without_nothing(all, none);
}

/// What holds between two entries of a pass: the reaper is scanning, the
/// store has lost every expired key of `all[..lo]`, the batch holds the
/// expired keys of `all[lo..i]`, and `full` full batches were deleted.
spec fn pass_inv<T: Keyable, F: Expirable>(
    state: ReaperState<T>,
    held: Seq<Field>,
    batches: Seq<usize>,
    start: ReaperState<T>,
    all: Seq<Field>,
    now: int,
    lo: int,
    i: int,
    full: nat,
) -> bool {
    let e = start.expiry_time as int;
    let bulk = start.deletion_bulk_count;
    &&& unique_keys(all)
    &&& 0 <= lo <= i <= all.len()
    &&& state == (ReaperState { phase: ReaperPhase::Scanning, now, pending: state.pending, ..start })
    &&& held == without(all, expired_keys::<F>(all.take(lo), now, e))
    &&& gathered_from::<T, F>(state.pending, all, lo, i, now, e)
    &&& state.pending.len() == expired_count::<F>(all.take(i), now, e) - expired_count::<F>(
        all.take(lo),
        now,
        e,
    )
    &&& batches == Seq::new(full, |k: int| bulk as usize)
    &&& full * bulk == expired_count::<F>(all.take(lo), now, e)
}

/// Hands one scanned entry to the reaper and deletes the batch if that
/// filled it.
fn take_entry<T: Keyable, F: Expirable>(
    reaper: &mut Reaper<T>,
    store: &mut MemoryHash,
    batches: &mut Vec<usize>,
    id: T,
    fields: &F,
    Ghost(start): Ghost<ReaperState<T>>,
    Ghost(all): Ghost<Seq<Field>>,
    Ghost(now): Ghost<int>,
    Ghost(lo): Ghost<int>,
    Ghost(i): Ghost<int>,
    Ghost(full): Ghost<nat>,
) -> (done: Result<Ghost<(int, nat)>, Task1Error>)
    requires
        old(reaper).wf(),
        old(store).wf(),
        pass_inv::<T, F>(old(reaper)@, old(store)@, old(batches)@, start, all, now, lo, i, full),
        i < all.len(),
        id.text() == all[i].0,
        F::decoded_timestamp(all[i].1) == Some(fields.created_at()),
    ensures
        final(reaper).wf(),
        final(store).wf(),
        done is Ok,
        pass_inv::<T, F>(
            final(reaper)@,
            final(store)@,
            final(batches)@,
            start,
            all,
            now,
            done->Ok_0@.0,
            i + 1,
            done->Ok_0@.1,
        ),
{
    let ghost e = start.expiry_time as int;
    let ghost bulk = start.deletion_bulk_count;
    let ghost before = reaper@;
    let ghost key = id;
    let action = reaper.step(ReaperEvent::entry(id, fields));
    proof {
        reaper.lemma_pending_is_buffer_front();
        lemma_expired_count_step::<F>(all, i, now, e);
        if expired_field::<F>(all[i], now, e) {
            lemma_gathered_push::<T, F>(before.pending, all, lo, i, now, e, key);
        } else {
            lemma_gathered_skip::<T, F>(before.pending, all, lo, i, now, e);
        }
    }
    match action {
        ReaperAction::Delete { count } => {
            let removed = flush(reaper, store, count);
            proof {
                lemma_flush_exact::<T, F>(all, reaper@.pending, lo, i + 1, now, e);
                assert((full + 1) * bulk == full * bulk + bulk) by (nonlinear_arith);
            }
            batches.push(removed);
            match reaper.step(ReaperEvent::Deleted { count: removed }) {
                ReaperAction::Abort(err) => {
                    return Err(err);
                },
                _ => {},
            }
            assert(batches@ =~= Seq::new((full + 1) as nat, |k: int| bulk as usize));
            Ok(Ghost((i + 1, (full + 1) as nat)))
        },
        ReaperAction::Abort(err) => Err(err),
        _ => Ok(Ghost((lo, full))),
    }
}

impl<T: Keyable> Reaper<T> {
    /// One full pass over `store`, judged by the single clock reading `now`:
    /// scans the fields in order up to the first whose value does not
    /// decode, gathers the keys of the expired ones, and deletes them in
    /// batches of the configured size and one last batch for what is left.
    ///
    /// Nothing else touches the store during the pass, so every deletion
    /// removes exactly the keys it was given and the pass cannot fail.
    pub fn sweep<F: Expirable>(&mut self, store: &mut MemoryHash, now: i64) -> (outcome: Result<
        PassReport,
        Task1Error,
    >)
        requires
            old(self).wf(),
            old(self)@.phase == ReaperPhase::Idle,
            old(store).wf(),
        ensures
            final(self).wf(),
            final(store).wf(),
            final(self)@ == (ReaperState { now: now as int, ..old(self)@ }),
            outcome is Ok,
            outcome->Ok_0.scanned == readable::<F>(old(store)@),
            final(store)@ == without(
                old(store)@,
                expired_keys::<F>(
                    old(store)@.take(outcome->Ok_0.scanned as int),
                    now as int,
                    old(self)@.expiry_time as int,
                ),
            ),
            outcome->Ok_0.batches@ == batches_of(
                expired_count::<F>(
                    old(store)@.take(outcome->Ok_0.scanned as int),
                    now as int,
                    old(self)@.expiry_time as int,
                ),
                old(self)@.deletion_bulk_count,
            ),
    {
        let ghost all = store@;
        let ghost start = self@;
        let ghost e = start.expiry_time as int;
        let ghost bulk = start.deletion_bulk_count;
        proof {
            self.lemma_pending_is_buffer_front();
            assert(start.pending =~= Seq::<T>::empty());
            assert(all.take(0) =~= Seq::<Field>::empty());
            lemma_without_nothing_at_all::<F>(all, now as int, e);
        }
        let snapshot = store.scan_all();
        match self.step(ReaperEvent::PassStarted { now }) {
            ReaperAction::Abort(err) => {
                return Err(err);
            },
            _ => {},
        }
        match self.step(ReaperEvent::ScanOpened) {
            ReaperAction::Abort(err) => {
                return Err(err);
            },
            _ => {},
        }
        let mut batches: Vec<usize> = Vec::new();
        let mut i: usize = 0;
        let mut more = true;
        let ghost mut lo: int = 0;
        let ghost mut full: nat = 0;
        let ghost moved = snapshot@;
        let total = snapshot.len();
        assert(batches@ =~= Seq::new(full, |k: int| bulk as usize));
        assert(full * bulk == 0) by (nonlinear_arith)
            requires
                full == 0,
        ;
        for field in it: snapshot
            invariant
                it.seq() == moved,
                moved.len() == total,
                crate::store::fields_of(moved) == all,
                i <= it.index(),
                more ==> i == it.index(),
                self.wf(),
                store.wf(),
                pass_inv::<T, F>(self@, store@, batches@, start, all, now as int, lo, i as int, full),
                forall|j: int| 0 <= j < i ==> F::decoded_timestamp((#[trigger] all[j]).1) is Some,
                !more ==> i < all.len() && F::decoded_timestamp(all[i as int].1) is None,
        {
            if more {
                assert(all[i as int] == (field.0@, field.1@));
                match F::decode(field.1.as_str()) {
                    None => {
                        more = false;
                    },
                    Some(fields) => {
                        let id = T::from_stored(field.0);
                        match take_entry::<T, F>(
                            self,
                            store,
                            &mut batches,
                            id,
                            &fields,
                            Ghost(start),
                            Ghost(all),
                            Ghost(now as int),
                            Ghost(lo),
                            Ghost(i as int),
                            Ghost(full),
                        ) {
                            Ok(marks) => {
                                proof {
                                    lo = marks@.0;
                                    full = marks@.1;
                                }
                            },
                            Err(err) => {
                                return Err(err);
                            },
                        }
                        i = i + 1;
                    },
                }
            }
        }
        proof {
            lemma_readable::<F>(all, i as nat);
            self.lemma_pending_is_buffer_front();
        }
        let ghost total = expired_count::<F>(all.take(i as int), now as int, e);
        let ghost left = self@.pending.len();
        match self.step(ReaperEvent::ScanFinished) {
            ReaperAction::Delete { count } => {
                let removed = flush(self, store, count);
                proof {
                    lemma_flush_exact::<T, F>(all, self@.pending, lo, i as int, now as int, e);
                }
                batches.push(removed);
                match self.step(ReaperEvent::Deleted { count: removed }) {
                    ReaperAction::Abort(err) => {
                        return Err(err);
                    },
                    _ => {},
                }
                proof {
                    vstd::arithmetic::div_mod::lemma_fundamental_div_mod_converse(
                        total as int,
                        bulk as int,
                        full as int,
                        left as int,
                    );
                    assert(batches@ =~= batches_of(total, bulk));
                }
            },
            ReaperAction::Abort(err) => {
                return Err(err);
            },
            _ => {
                proof {
                    lemma_flush_exact::<T, F>(all, self@.pending, lo, i as int, now as int, e);
                    assert(text_set(self@.pending) =~= Set::<Seq<char>>::empty());
                    crate::store::lemma_without_nothing(store@, text_set(self@.pending));
                    vstd::arithmetic::div_mod::lemma_fundamental_div_mod_converse(
                        total as int,
                        bulk as int,
                        full as int,
                        0,
                    );
                    assert(batches@ =~= batches_of(total, bulk));
                }
            },
        }
        assert(self@.pending =~= start.pending);
        Ok(PassReport { scanned: i, batches })
    }
}

/// After a pass, a field is gone exactly if the scan read it and it had
/// expired by the clock reading of the pass; every other field is still
/// there, with its value.
pub proof fn lemma_pass_removes_the_expired<F: Expirable>(
    all: Seq<Field>,
    now: int,
    expiry_time: int,
    j: int,
)
    requires
        unique_keys(all),
        0 <= j < all.len(),
    ensures
        ({
            let scanned = readable::<F>(all) as int;
            let after = without(all, expired_keys::<F>(all.take(scanned), now, expiry_time));
            if j < scanned && expired_field::<F>(all[j], now, expiry_time) {
                !has_key(after, all[j].0)
            } else {
                after.contains(all[j])
            }
        }),
{
    let scanned = readable::<F>(all) as int;
    lemma_readable_bound::<F>(all);
    let gone = expired_keys::<F>(all.take(scanned), now, expiry_time);
    lemma_without_fields(all, gone);
    if j < scanned && expired_field::<F>(all[j], now, expiry_time) {
        assert(all.take(scanned)[j] == all[j]);
        assert(gone.contains(all[j].0));
    } else {
        if gone.contains(all[j].0) {
            let g = choose|g: int|
                0 <= g < all.take(scanned).len() && (#[trigger] all.take(scanned)[g]).0 == all[j].0
                    && expired_field::<F>(all.take(scanned)[g], now, expiry_time);
            assert(all[g].0 == all[j].0);
            assert(g == j);
        }
        assert(all.contains(all[j]));
    }
}

/// Where every value of the hash decodes, a pass removes a field exactly
/// if the clock reading of the pass is past the field's creation time by
/// more than the time-to-live: a field made at `created` is gone after the
/// pass if `now > created + expiry_time`, and is still there, with its
/// value, if `now <= created + expiry_time`.
pub proof fn lemma_pass_by_creation_time<F: Expirable>(
    all: Seq<Field>,
    now: int,
    expiry_time: int,
    j: int,
    created: i64,
)
    requires
        unique_keys(all),
        0 <= j < all.len(),
        forall|i: int| 0 <= i < all.len() ==> F::decoded_timestamp((#[trigger] all[i]).1) is Some,
        F::decoded_timestamp(all[j].1) == Some(created),
    ensures
        readable::<F>(all) == all.len(),
        ({
            let after = without(all, expired_keys::<F>(all.take(all.len() as int), now, expiry_time));
            &&& now > created + expiry_time ==> !has_key(after, all[j].0)
            &&& now <= created + expiry_time ==> after.contains(all[j])
        }),
{
    lemma_readable::<F>(all, all.len());
    lemma_pass_removes_the_expired::<F>(all, now, expiry_time, j);
}

/// A scan reads no more fields than there are.
pub proof fn lemma_readable_bound<F: Expirable>(fields: Seq<Field>)
    ensures
        readable::<F>(fields) <= fields.len(),
    decreases fields.len(),
{
    if fields.len() > 0 && F::decoded_timestamp(fields[0].1) is Some {
        lemma_readable_bound::<F>(fields.drop_first());
    }
}

/// Where every field has expired, every field counts.
proof fn lemma_all_expired_count<F: Expirable>(fields: Seq<Field>, now: int, expiry_time: int)
    requires
        forall|j: int| 0 <= j < fields.len() ==> expired_field::<F>(#[trigger] fields[j], now, expiry_time),
    ensures
        expired_count::<F>(fields, now, expiry_time) == fields.len(),
    decreases fields.len(),
{
    if fields.len() > 0 {
        let front = fields.drop_last();
        assert forall|j: int| 0 <= j < front.len() implies expired_field::<F>(
            #[trigger] front[j],
            now,
            expiry_time,
        ) by {
            assert(front[j] == fields[j]);
        }
        lemma_all_expired_count::<F>(front, now, expiry_time);
        assert(expired_field::<F>(fields[fields.len() - 1], now, expiry_time));
    }
}

/// A pass over a hash that holds three batches less one field, all of
/// them expired, makes two deletions of a full batch and one of a batch
/// less one key, and leaves the hash empty.
pub proof fn lemma_three_batches_less_one<F: Expirable>(
    all: Seq<Field>,
    now: int,
    expiry_time: int,
    bulk: nat,
)
    requires
        unique_keys(all),
        2 <= bulk <= usize::MAX,
        all.len() == 3 * bulk - 1,
        forall|j: int| 0 <= j < all.len() ==> expired_field::<F>(#[trigger] all[j], now, expiry_time),
    ensures
        readable::<F>(all) == all.len(),
        batches_of(expired_count::<F>(all.take(all.len() as int), now, expiry_time), bulk) == seq![
            bulk as usize,
            bulk as usize,
            (bulk - 1) as usize,
        ],
        without(all, expired_keys::<F>(all.take(all.len() as int), now, expiry_time)).len() == 0,
{
    assert(all.take(all.len() as int) =~= all);
    assert forall|j: int| 0 <= j < all.len() implies F::decoded_timestamp((#[trigger] all[j]).1) is Some by {
        assert(expired_field::<F>(all[j], now, expiry_time));
    }
    lemma_readable::<F>(all, all.len());
    lemma_all_expired_count::<F>(all, now, expiry_time);
    let count = (3 * bulk - 1) as nat;
    vstd::arithmetic::div_mod::lemma_fundamental_div_mod_converse(
        count as int,
        bulk as int,
        2,
        bulk - 1,
    );
    assert(batches_of(count, bulk) =~= seq![bulk as usize, bulk as usize, (bulk - 1) as usize]);
    let gone = expired_keys::<F>(all, now, expiry_time);
    let after = without(all, gone);
    lemma_without_fields(all, gone);
    if after.len() > 0 {
        assert(after.contains(after[0]));
        let f = after[0];
        let j = choose|j: int| 0 <= j < all.len() && all[j] == f;
        assert(expired_field::<F>(all[j], now, expiry_time));
        assert(gone.contains(f.0));
    }
}

/// One pass of the reaper over the hash that `cfg` carries, judged by the
/// clock reading `now`. Hands the hash back together with what the pass
/// did: what [`Reaper::sweep`] does, on a reaper made for the occasion.
pub fn redis_fields_deletion_task<T: Keyable, F: Expirable>(
    cfg: Task1Config<MemoryHash>,
    now: i64,
) -> (outcome: Result<(MemoryHash, PassReport), Task1Error>)
    requires
        cfg.bulk() >= 1,
        cfg.conn().wf(),
    ensures
        outcome is Ok,
        outcome->Ok_0.0.wf(),
        outcome->Ok_0.1.scanned == readable::<F>(cfg.conn()@),
        outcome->Ok_0.0@ == without(
            cfg.conn()@,
            expired_keys::<F>(
                cfg.conn()@.take(outcome->Ok_0.1.scanned as int),
                now as int,
                cfg.expiry() as int,
            ),
        ),
        outcome->Ok_0.1.batches@ == batches_of(
            expired_count::<F>(
                cfg.conn()@.take(outcome->Ok_0.1.scanned as int),
                now as int,
                cfg.expiry() as int,
            ),
            cfg.bulk() as nat,
        ),
{
    let (mut reaper, mut store) = Reaper::<T>::new(cfg);
    match reaper.sweep::<F>(&mut store, now) {
        Ok(report) => Ok((store, report)),
        Err(err) => Err(err),
    }
}

} // verus!
