//! The pool of user identifiers that the client handlers share.
//!
//! The identifiers that are free stand in a `Vec` behind a mutex: a connection takes
//! the last one and gives it back when it ends. Which identifiers are free at a given
//! moment depends on the other threads, so the exact statements are those of
//! [`obtain_under`] and [`redeem_under`], which say what happens to the identifiers
//! that a held lock guards.

use std::sync::{Arc, LockResult, Mutex, MutexGuard, PoisonError};
use vstd::prelude::*;

use crate::error::ChatError;

verus! {

/// How many users can be connected at the same time.
pub const MAX_NUM_USERS: usize = 2000;

/// The standard mutex, as an opaque type.
#[verifier::external_type_specification]
#[verifier::external_body]
#[verifier::reject_recursive_types(T)]
pub struct ExMutex<T: ?Sized>(Mutex<T>);

/// The guard of a standard mutex, as an opaque type.
#[verifier::external_type_specification]
#[verifier::external_body]
#[verifier::reject_recursive_types(T)]
pub struct ExMutexGuard<'a, T: ?Sized + 'a>(MutexGuard<'a, T>);

/// The error of a poisoned lock, as an opaque type.
#[verifier::external_type_specification]
#[verifier::external_body]
#[verifier::reject_recursive_types(T)]
pub struct ExPoisonError<T>(PoisonError<T>);

/// The identifiers that a mutex held when it was made. What it holds later is not a
/// property of the mutex alone.
pub uninterp spec fn made_with(pool: Mutex<Vec<usize>>) -> Seq<usize>;

/// The identifiers that a held lock guards. Nobody else reaches them while the guard
/// lives.
pub uninterp spec fn guarded(guard: MutexGuard<'_, Vec<usize>>) -> Seq<usize>;

/// Whether an attempt to lock was made on this mutex. The guard that it gave, also inside the
/// error of a poisoned lock, stays with that mutex.
pub uninterp spec fn is_lock_of(
    lock: LockResult<MutexGuard<'_, Vec<usize>>>,
    pool: Mutex<Vec<usize>>,
) -> bool;

/// Whether an attempt to lock this mutex gave this lock, just as it stands: nothing has been done
/// under it yet.
pub uninterp spec fn is_locked_from(
    lock: LockResult<MutexGuard<'_, Vec<usize>>>,
    pool: Mutex<Vec<usize>>,
) -> bool;

/// Calls `std::sync::Mutex::new`: the new mutex holds the given identifiers.
#[verifier::external_body]
pub(crate) fn new_mutex(ids: Vec<usize>) -> (r: Mutex<Vec<usize>>)
    ensures
        made_with(r) == ids@,
{
    Mutex::new(ids)
}

/// Calls `Arc::clone`: the new handle leads to the same mutex.
#[verifier::external_body]
pub(crate) fn share(pool: &Arc<Mutex<Vec<usize>>>) -> (r: Arc<Mutex<Vec<usize>>>)
    ensures
        r == *pool,
{
    pool.clone()
}

/// Calls `std::sync::Mutex::lock`: the lock is one of the given mutex, as locking it gave it.
/// Whether the mutex is poisoned, and what it holds once it is locked, depends on the other
/// threads, so nothing is claimed of that. The standard library forbids this call to a thread that already holds this
/// lock; the functions of this crate drop their guard before they return.
#[verifier::external_body]
pub(crate) fn lock_ids(pool: &Mutex<Vec<usize>>) -> (r: LockResult<MutexGuard<'_, Vec<usize>>>)
    ensures
        is_lock_of(r, *pool),
        is_locked_from(r, *pool),
{
    pool.lock()
}

/// Calls `MutexGuard::deref_mut`: hands out the guarded identifiers, and what becomes of
/// them through the reference is what the guard guards afterwards, for the same mutex.
#[verifier::external_body]
pub(crate) fn guarded_ids<'a>(guard: &'a mut MutexGuard<'_, Vec<usize>>) -> (r: &'a mut Vec<usize>)
    ensures
        r@ == guarded(*old(guard)),
        guarded(*final(guard)) == final(r)@,
        forall|pool: Mutex<Vec<usize>>|
            is_lock_of(Ok(*old(guard)), pool) ==> #[trigger] is_lock_of(Ok(*final(guard)), pool),
{
    guard
}

/// Every identifier from `MAX_NUM_USERS` down to 1, so that 1 is taken first.
pub open spec fn fresh_ids() -> Seq<usize> {
    Seq::new(MAX_NUM_USERS as nat, |i: int| (MAX_NUM_USERS - i) as usize)
}

/// What taking an identifier from the free ones returns.
pub open spec fn obtained(ids: Seq<usize>) -> Result<usize, ChatError> {
    if ids.len() == 0 {
        Err(ChatError::NoIdsLeft)
    } else {
        Ok(ids.last())
    }
}

/// The identifiers that stay free when one is taken.
pub open spec fn left_after_obtaining(ids: Seq<usize>) -> Seq<usize> {
    if ids.len() == 0 {
        ids
    } else {
        ids.drop_last()
    }
}

/// The identifiers that are free when one has been given back.
pub open spec fn left_after_redeeming(ids: Seq<usize>, id: usize) -> Seq<usize> {
    ids.push(id)
}

/// What taking an identifier under a lock returns, and how the lock stands before and after:
/// the last of those that are guarded is taken, unless there is none or the lock is poisoned.
pub open spec fn taken(
    before: LockResult<MutexGuard<'_, Vec<usize>>>,
    after: LockResult<MutexGuard<'_, Vec<usize>>>,
    r: Result<usize, ChatError>,
) -> bool {
    match before {
        Ok(guard) => {
            &&& r == obtained(guarded(guard))
            &&& after matches Ok(guard_after)
            &&& guarded(guard_after) == left_after_obtaining(guarded(guard))
        },
        Err(_) => {
            &&& r == Err::<usize, ChatError>(ChatError::IdPoolPoisoned)
            &&& after == before
        },
    }
}

/// Whether `r` is what came of locking this mutex and taking an identifier: it is the last of
/// those that were guarded when the mutex was locked.
pub open spec fn taken_in(pool: Mutex<Vec<usize>>, r: Result<usize, ChatError>) -> bool {
    exists|
        before: LockResult<MutexGuard<'_, Vec<usize>>>,
        after: LockResult<MutexGuard<'_, Vec<usize>>>,
    |
        {
            &&& is_locked_from(before, pool)
            &&& is_lock_of(after, pool)
            &&& #[trigger] taken(before, after, r)
        }
}

/// What giving an identifier back under a lock returns, and how the lock stands before and
/// after: the identifier joins those that are guarded, unless the lock is poisoned.
pub open spec fn redeemed(
    before: LockResult<MutexGuard<'_, Vec<usize>>>,
    after: LockResult<MutexGuard<'_, Vec<usize>>>,
    id: usize,
    r: Result<(), ChatError>,
) -> bool {
    match before {
        Ok(guard) => {
            &&& r == Ok::<(), ChatError>(())
            &&& after matches Ok(guard_after)
            &&& guarded(guard_after) == left_after_redeeming(guarded(guard), id)
        },
        Err(_) => {
            &&& r == Err::<(), ChatError>(ChatError::IdPoolPoisoned)
            &&& after == before
        },
    }
}

/// Whether `r` is what came of locking this mutex and giving the identifier back: it joins those
/// that were guarded when the mutex was locked.
pub open spec fn redeemed_in(pool: Mutex<Vec<usize>>, id: usize, r: Result<(), ChatError>) -> bool {
    exists|
        before: LockResult<MutexGuard<'_, Vec<usize>>>,
        after: LockResult<MutexGuard<'_, Vec<usize>>>,
    |
        {
            &&& is_locked_from(before, pool)
            &&& is_lock_of(after, pool)
            &&& #[trigger] redeemed(before, after, id, r)
        }
}

/// Each identifier from 1 to `MAX_NUM_USERS` is either free, once, or held by a user.
pub open spec fn ids_partitioned(free: Seq<usize>, held: Set<usize>) -> bool {
    &&& free.no_duplicates()
    &&& forall|id: usize| #[trigger] free.contains(id) ==> 1 <= id <= MAX_NUM_USERS && !held.contains(id)
    &&& forall|id: usize| #[trigger] held.contains(id) ==> 1 <= id <= MAX_NUM_USERS
    &&& forall|id: usize| 1 <= id <= MAX_NUM_USERS ==> #[trigger] free.contains(id) || held.contains(id)
}

/// The free identifiers of a new pool.
pub fn new_ids() -> (r: Vec<usize>)
    ensures
        r@ == fresh_ids(),
{
    let mut ids: Vec<usize> = Vec::with_capacity(MAX_NUM_USERS);
    let mut next: usize = MAX_NUM_USERS;
    while next > 0
        invariant
            next <= MAX_NUM_USERS,
            ids@ == fresh_ids().take(MAX_NUM_USERS - next),
        decreases next,
    {
        ids.push(next);
        next = next - 1;
        assert(fresh_ids().take(MAX_NUM_USERS - next) == fresh_ids().take(
            MAX_NUM_USERS - next - 1,
        ).push((next + 1) as usize));
    }
    assert(fresh_ids().take(MAX_NUM_USERS as int) == fresh_ids());
    ids
}

/// Takes the last of the identifiers that the lock guards. A poisoned lock is refused and
/// its identifiers stay as they are.
pub fn obtain_under(lock: &mut LockResult<MutexGuard<'_, Vec<usize>>>) -> (r: Result<usize, ChatError>)
    ensures
        taken(*old(lock), *final(lock), r),
        forall|pool: Mutex<Vec<usize>>|
            is_lock_of(*old(lock), pool) ==> #[trigger] is_lock_of(*final(lock), pool),
{
    match lock {
        Ok(guard) => {
            match guarded_ids(guard).pop() {
                Some(id) => Ok(id),
                None => Err(ChatError::NoIdsLeft),
            }
        },
        Err(_) => Err(ChatError::IdPoolPoisoned),
    }
}

/// Gives an identifier back to those that the lock guards: it is the next one to be taken.
/// A poisoned lock is refused and its identifiers stay as they are.
pub fn redeem_under(lock: &mut LockResult<MutexGuard<'_, Vec<usize>>>, id: usize) -> (r: Result<
    (),
    ChatError,
>)
    ensures
        redeemed(*old(lock), *final(lock), id, r),
        forall|pool: Mutex<Vec<usize>>|
            is_lock_of(*old(lock), pool) ==> #[trigger] is_lock_of(*final(lock), pool),
{
    match lock {
        Ok(guard) => {
            guarded_ids(guard).push(id);
            Ok(())
        },
        Err(_) => Err(ChatError::IdPoolPoisoned),
    }
}

/// A handle to a pool of identifiers. Every clone of a handle leads to the same pool.
pub struct SharedIdPool(Arc<Mutex<Vec<usize>>>);

impl SharedIdPool {
    /// The identifiers that were free when the pool was made.
    pub closed spec fn initial_ids(&self) -> Seq<usize> {
        made_with(*self.0)
    }

    /// The mutex that the handle leads to.
    pub closed spec fn mutex(&self) -> Mutex<Vec<usize>> {
        *self.0
    }

    /// A new pool, in which every identifier is free.
    pub fn new() -> (r: SharedIdPool)
        ensures
            r.initial_ids() == fresh_ids(),
            made_with(r.mutex()) == fresh_ids(),
    {
        SharedIdPool(Arc::new(new_mutex(new_ids())))
    }

    /// Another handle to the same pool.
    pub fn clone(&self) -> (r: SharedIdPool)
        ensures
            r == *self,
    {
        SharedIdPool(share(&self.0))
    }

    /// Takes an identifier out of the pool: the pool is locked, and of the identifiers that are
    /// free at that moment the last one is taken, unless there is none or the pool is poisoned.
    /// Which ones are free then depends on the other threads. The lock is released in the state
    /// that the taking left: nothing else is done under it.
    pub fn obtain_id_token(&self) -> (r: Result<usize, ChatError>)
        ensures
            taken_in(self.mutex(), r),
            exists|
                before: LockResult<MutexGuard<'_, Vec<usize>>>,
                after: LockResult<MutexGuard<'_, Vec<usize>>>,
            |
                {
                    &&& is_locked_from(before, self.mutex())
                    &&& is_lock_of(after, self.mutex())
                    &&& #[trigger] taken(before, after, r)
                    &&& has_resolved(after)
                },
    {
        let mut lock = lock_ids(&self.0);
        obtain_under(&mut lock)
    }

    /// Puts an identifier into the pool: the pool is locked, and the identifier joins those that
    /// are free at that moment, unless the pool is poisoned. Which ones are free then depends on
    /// the other threads. The lock is released in the state that this left: nothing else is done
    /// under it.
    pub fn redeem_token(&self, id: usize) -> (r: Result<(), ChatError>)
        ensures
            redeemed_in(self.mutex(), id, r),
            exists|
                before: LockResult<MutexGuard<'_, Vec<usize>>>,
                after: LockResult<MutexGuard<'_, Vec<usize>>>,
            |
                {
                    &&& is_locked_from(before, self.mutex())
                    &&& is_lock_of(after, self.mutex())
                    &&& #[trigger] redeemed(before, after, id, r)
                    &&& has_resolved(after)
                },
    {
        let mut lock = lock_ids(&self.0);
        redeem_under(&mut lock, id)
    }
}

/// A new pool holds the numbers from 2000 down to 1, each once.
pub proof fn fresh_ids_count_down()
    ensures
        fresh_ids().len() == 2000,
        forall|i: int| 0 <= i < 2000 ==> #[trigger] fresh_ids()[i] == 2000 - i,
{
}

/// Taking an identifier fails exactly when none is free, and then changes nothing. Otherwise
/// the identifier stood last, and the others stay as they were.
pub proof fn taking_removes_the_last_one(ids: Seq<usize>)
    ensures
        match obtained(ids) {
            Ok(id) => ids == left_after_obtaining(ids).push(id),
            Err(e) => {
                &&& e is NoIdsLeft
                &&& ids.len() == 0
                &&& left_after_obtaining(ids).len() == 0
            },
        },
{
}

/// Giving an identifier back adds it once, behind the others, which stay as they were.
pub proof fn giving_back_adds_one(ids: Seq<usize>, id: usize)
    ensures
        left_after_redeeming(ids, id).len() == ids.len() + 1,
        left_after_redeeming(ids, id).last() == id,
        forall|i: int| 0 <= i < ids.len() ==> #[trigger] left_after_redeeming(ids, id)[i] == ids[i],
{
}

/// What taking an identifier does to what a lock guards: the identifier leaves it and nothing
/// else changes. It is refused exactly when nothing is guarded or the lock is poisoned.
pub proof fn taking_under_a_lock(
    before: LockResult<MutexGuard<'_, Vec<usize>>>,
    after: LockResult<MutexGuard<'_, Vec<usize>>>,
    r: Result<usize, ChatError>,
)
    requires
        taken(before, after, r),
    ensures
        before is Err ==> {
            &&& r matches Err(e)
            &&& e is IdPoolPoisoned
            &&& after == before
        },
        before is Ok ==> after is Ok,
        before is Ok && guarded(before->Ok_0).len() == 0 ==> {
            &&& r matches Err(e)
            &&& e is NoIdsLeft
            &&& guarded(after->Ok_0).len() == 0
        },
        before is Ok && guarded(before->Ok_0).len() > 0 ==> {
            &&& r matches Ok(id)
            &&& guarded(before->Ok_0) == guarded(after->Ok_0).push(id)
        },
{
    if before is Ok {
        taking_removes_the_last_one(guarded(before->Ok_0));
    }
}

/// What giving an identifier back does to what a lock guards: the identifier joins it once, and
/// nothing else changes. It is refused exactly when the lock is poisoned.
pub proof fn giving_back_under_a_lock(
    before: LockResult<MutexGuard<'_, Vec<usize>>>,
    after: LockResult<MutexGuard<'_, Vec<usize>>>,
    id: usize,
    r: Result<(), ChatError>,
)
    requires
        redeemed(before, after, id, r),
    ensures
        before is Err ==> {
            &&& r matches Err(e)
            &&& e is IdPoolPoisoned
            &&& after == before
        },
        before is Ok ==> {
            &&& r is Ok
            &&& after is Ok
            &&& guarded(after->Ok_0) == guarded(before->Ok_0).push(id)
        },
{
}

/// The pool has room for 2000 users, whose identifiers are the numbers from 1 to 2000: each is
/// either free, once, or held.
pub proof fn partition_is_of_all_ids(free: Seq<usize>, held: Set<usize>)
    ensures
        ids_partitioned(free, held) <==> {
            &&& forall|i: int, j: int| 0 <= i < j < free.len() ==> #[trigger] free[i] != #[trigger] free[j]
            &&& forall|id: usize| #[trigger] free.contains(id) ==> !held.contains(id)
            &&& forall|id: usize|
                #![trigger free.contains(id)]
                #![trigger held.contains(id)]
                (1 <= id <= 2000) == (free.contains(id) || held.contains(id))
        },
{
}

/// In a new pool every identifier is free and nobody holds one.
pub proof fn fresh_ids_are_partitioned()
    ensures
        ids_partitioned(fresh_ids(), Set::empty()),
{
    assert forall|id: usize| 1 <= id <= MAX_NUM_USERS implies #[trigger] fresh_ids().contains(id) by {
        assert(fresh_ids()[MAX_NUM_USERS - id] == id);
    }
}

/// An identifier that is taken was held by nobody, and the pool stays partitioned once the
/// taker holds it.
pub proof fn obtained_id_is_held_by_nobody_else(free: Seq<usize>, held: Set<usize>, id: usize)
    requires
        ids_partitioned(free, held),
        obtained(free) == Ok::<usize, ChatError>(id),
    ensures
        1 <= id <= MAX_NUM_USERS,
        !held.contains(id),
        ids_partitioned(left_after_obtaining(free), held.insert(id)),
{
    let left = left_after_obtaining(free);
    assert(free.contains(free.last()));
    assert forall|i: usize| #[trigger] left.contains(i) implies free.contains(i) && i != id by {
        let k = left.index_of(i);
        assert(free[k] == i);
    }
    assert forall|i: usize| 1 <= i <= MAX_NUM_USERS implies #[trigger] left.contains(i)
        || held.insert(id).contains(i) by {
        if free.contains(i) && i != id {
            assert(left[free.index_of(i)] == i);
        }
    }
}

/// When its holder gives an identifier back, the pool stays partitioned.
pub proof fn redeemed_id_is_free_again(free: Seq<usize>, held: Set<usize>, id: usize)
    requires
        ids_partitioned(free, held),
        held.contains(id),
    ensures
        ids_partitioned(left_after_redeeming(free, id), held.remove(id)),
{
    let left = left_after_redeeming(free, id);
    assert forall|i: usize| #[trigger] left.contains(i) == (free.contains(i) || i == id) by {
        if free.contains(i) {
            assert(left[free.index_of(i)] == i);
        }
        if i == id {
            assert(left[free.len() as int] == i);
        }
    }
    assert(left.no_duplicates()) by {
        assert(!free.contains(id));
        assert forall|i: int, j: int| 0 <= i < j < left.len() implies left[i] != left[j] by {
            assert(free.contains(left[i]));
        }
    }
}

/// A lock hands out an identifier that nobody holds, or none because all of them are held, and
/// the pool stays partitioned.
pub proof fn lock_hands_out_what_nobody_holds(
    before: LockResult<MutexGuard<'_, Vec<usize>>>,
    after: LockResult<MutexGuard<'_, Vec<usize>>>,
    r: Result<usize, ChatError>,
    held: Set<usize>,
)
    requires
        taken(before, after, r),
        before matches Ok(guard) && ids_partitioned(guarded(guard), held),
    ensures
        after is Ok,
        match r {
            Ok(id) => {
                &&& 1 <= id <= MAX_NUM_USERS
                &&& !held.contains(id)
                &&& ids_partitioned(guarded(after->Ok_0), held.insert(id))
            },
            Err(e) => {
                &&& e is NoIdsLeft
                &&& forall|id: usize| 1 <= id <= MAX_NUM_USERS ==> #[trigger] held.contains(id)
                &&& ids_partitioned(guarded(after->Ok_0), held)
            },
        },
{
    let free = guarded(before->Ok_0);
    match r {
        Ok(id) => obtained_id_is_held_by_nobody_else(free, held, id),
        Err(_) => {
            assert forall|id: usize| 1 <= id <= MAX_NUM_USERS implies #[trigger] held.contains(id) by {
                no_ids_left_means_all_are_held(free, held, id);
            }
        },
    }
}

/// A lock takes an identifier back from the user who holds it, and the pool stays partitioned.
pub proof fn lock_takes_back_what_is_held(
    before: LockResult<MutexGuard<'_, Vec<usize>>>,
    after: LockResult<MutexGuard<'_, Vec<usize>>>,
    id: usize,
    r: Result<(), ChatError>,
    held: Set<usize>,
)
    requires
        redeemed(before, after, id, r),
        before matches Ok(guard) && ids_partitioned(guarded(guard), held),
        held.contains(id),
    ensures
        r is Ok,
        after is Ok,
        ids_partitioned(guarded(after->Ok_0), held.remove(id)),
{
    redeemed_id_is_free_again(guarded(before->Ok_0), held, id);
}

/// No identifier is left only while users hold all `MAX_NUM_USERS` of them.
pub proof fn no_ids_left_means_all_are_held(free: Seq<usize>, held: Set<usize>, id: usize)
    requires
        ids_partitioned(free, held),
        obtained(free) == Err::<usize, ChatError>(ChatError::NoIdsLeft),
        1 <= id <= MAX_NUM_USERS,
    ensures
        held.contains(id),
{
    assert(!free.contains(id));
}

/// The identifier that was given back last is the next one to be taken, and taking it
/// undoes the giving back.
pub proof fn obtaining_undoes_redeeming(free: Seq<usize>, id: usize)
    ensures
        obtained(left_after_redeeming(free, id)) == Ok::<usize, ChatError>(id),
        left_after_obtaining(left_after_redeeming(free, id)) == free,
{
}

/// From a new pool the identifiers are taken in ascending order: when `taken` of them are out
/// and none came back, the next one is `taken + 1`.
pub proof fn new_pool_counts_up(taken: int)
    requires
        0 <= taken < MAX_NUM_USERS,
    ensures
        obtained(fresh_ids().take(MAX_NUM_USERS - taken)) == Ok::<usize, ChatError>(
            (taken + 1) as usize,
        ),
        left_after_obtaining(fresh_ids().take(MAX_NUM_USERS - taken)) == fresh_ids().take(
            MAX_NUM_USERS - (taken + 1),
        ),
{
}

/// Two users who take identifiers one after the other get different ones, as long as no
/// identifier was free twice.
pub proof fn two_users_get_different_ids(
    before1: LockResult<MutexGuard<'_, Vec<usize>>>,
    after1: LockResult<MutexGuard<'_, Vec<usize>>>,
    id1: usize,
    before2: LockResult<MutexGuard<'_, Vec<usize>>>,
    after2: LockResult<MutexGuard<'_, Vec<usize>>>,
    id2: usize,
)
    requires
        taken(before1, after1, Ok(id1)),
        taken(before2, after2, Ok(id2)),
        guarded(before1->Ok_0).no_duplicates(),
        guarded(before2->Ok_0) == guarded(after1->Ok_0),
    ensures
        id1 != id2,
        guarded(after2->Ok_0).no_duplicates(),
        !guarded(after2->Ok_0).contains(id1),
        !guarded(after2->Ok_0).contains(id2),
{
    taking_under_a_lock(before1, after1, Ok(id1));
    taking_under_a_lock(before2, after2, Ok(id2));
    let first = guarded(before1->Ok_0);
    let last = guarded(after2->Ok_0);
    assert(first == last.push(id2).push(id1));
    assert(first[last.len() as int] == id2);
    assert(first[1int + last.len()] == id1);
    assert forall|i: int| 0 <= i < last.len() implies last[i] != id1 && last[i] != id2 by {
        assert(first[i] == last[i]);
    }
    assert forall|i: int, j: int| 0 <= i < j < last.len() implies last[i] != last[j] by {
        assert(first[i] == last[i] && first[j] == last[j]);
    }
}

/// An identifier that is given back can be taken once again, and the one after it is another.
pub proof fn returned_id_is_taken_once(
    before: LockResult<MutexGuard<'_, Vec<usize>>>,
    after: LockResult<MutexGuard<'_, Vec<usize>>>,
    id: usize,
    r: Result<(), ChatError>,
)
    requires
        redeemed(before, after, id, r),
        before is Ok,
        guarded(before->Ok_0).no_duplicates(),
        !guarded(before->Ok_0).contains(id),
    ensures
        guarded(after->Ok_0).no_duplicates(),
        obtained(guarded(after->Ok_0)) == Ok::<usize, ChatError>(id),
        left_after_obtaining(guarded(after->Ok_0)) == guarded(before->Ok_0),
        obtained(guarded(before->Ok_0)) != Ok::<usize, ChatError>(id),
{
    giving_back_under_a_lock(before, after, id, r);
    let ids_before = guarded(before->Ok_0);
    let ids_after = guarded(after->Ok_0);
    assert(ids_after == ids_before.push(id));
    assert forall|i: int, j: int| 0 <= i < j < ids_after.len() implies ids_after[i] != ids_after[j] by {
        assert(ids_before.contains(ids_before[i]));
    }
    taking_removes_the_last_one(ids_after);
    assert(left_after_obtaining(ids_after) == ids_before);
    if ids_before.len() > 0 {
        assert(ids_before.contains(ids_before.last()));
    }
}

} // verus!
