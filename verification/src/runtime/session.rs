//! Who may work on a thread.
use crate::kernel::revision::{self, be_bytes_of};
use crate::text::text_eq;
use crate::views;
use vstd::prelude::*;

verus! {

/// An opaque fencing token issued for one leased session.
#[derive(Debug, PartialEq, Eq, Hash)]
pub struct LeaseFence(Vec<u8>);

impl View for LeaseFence {
    type V = Seq<u8>;

    closed spec fn view(&self) -> Seq<u8> {
        self.0@
    }
}

impl Clone for LeaseFence {
    fn clone(&self) -> (r: Self)
        ensures
            r@ == self@,
    {
        LeaseFence(self.0.clone())
    }
}

impl LeaseFence {
    /// The fence that consists of `bytes`.
    pub fn from_bytes(bytes: Vec<u8>) -> (r: Self)
        ensures
            r@ == bytes@,
    {
        LeaseFence(bytes)
    }

    pub fn as_bytes(&self) -> (r: &[u8])
        ensures
            r@ == self@,
    {
        self.0.as_slice()
    }
}

/// The ownership handle for one active thread session. The guard is let go when
/// the lease is.
pub struct SessionLease<G> {
    fence: LeaseFence,
    guard: G,
}

impl<G> SessionLease<G> {
    /// The fence of the lease.
    pub closed spec fn fence_view(&self) -> Seq<u8> {
        self.fence@
    }

    /// What the lease holds on to.
    pub closed spec fn guard_view(&self) -> G {
        self.guard
    }

    pub fn new(fence: LeaseFence, guard: G) -> (r: Self)
        ensures
            r.fence_view() == fence@,
            r.guard_view() == guard,
    {
        SessionLease { fence, guard }
    }

    pub fn fence(&self) -> (r: &LeaseFence)
        ensures
            r@ == self.fence_view(),
    {
        &self.fence
    }
}

/// In-process coordinator intended for tests and single-process local adapters:
/// it numbers the threads that are worked on, each of which has one slot, and
/// the leases, and knows which threads are leased.
#[derive(Debug)]
pub struct LocalSessionCoordinator {
    threads: Vec<String>,
    leased: Vec<String>,
    issued: u64,
}

/// The place of a thread among those that have a slot.
pub open spec fn slot_of(threads: Seq<Seq<char>>, thread_id: Seq<char>) -> Option<int>
    decreases threads.len(),
{
    if threads.len() == 0 {
        None
    } else {
        match slot_of(threads.drop_last(), thread_id) {
            Some(i) => Some(i),
            None => if threads.last() == thread_id {
                Some(threads.len() - 1)
            } else {
                None
            },
        }
    }
}

/// The threads that have a slot once a thread was asked for.
pub open spec fn with_thread(threads: Seq<Seq<char>>, thread_id: Seq<char>) -> Seq<Seq<char>> {
    if slot_of(threads, thread_id) is Some {
        threads
    } else {
        threads.push(thread_id)
    }
}

/// The slot that a thread is given.
pub open spec fn slot_in(threads: Seq<Seq<char>>, thread_id: Seq<char>) -> int {
    match slot_of(threads, thread_id) {
        Some(i) => i,
        None => threads.len() as int,
    }
}

proof fn lemma_slot_of(threads: Seq<Seq<char>>, thread_id: Seq<char>)
    ensures
        match slot_of(threads, thread_id) {
            Some(i) => 0 <= i < threads.len() && threads[i] == thread_id && forall|j: int|
                0 <= j < i ==> #[trigger] threads[j] != thread_id,
            None => forall|j: int| 0 <= j < threads.len() ==> #[trigger] threads[j] != thread_id,
        },
    decreases threads.len(),
{
    if threads.len() > 0 {
        lemma_slot_of(threads.drop_last(), thread_id);
        assert forall|j: int| 0 <= j < threads.len() - 1 implies #[trigger] threads[j]
            == threads.drop_last()[j] by {}
    }
}

impl LocalSessionCoordinator {
    /// The threads that have a slot.
    pub closed spec fn threads(&self) -> Seq<Seq<char>> {
        views::all(self.threads@)
    }

    /// The threads on which a lease lives.
    pub closed spec fn leased(&self) -> Set<Seq<char>> {
        views::all(self.leased@).to_set()
    }

    /// How many leases were given out, as far as the counter goes.
    pub closed spec fn issued(&self) -> u64 {
        self.issued
    }

    /// The slot of a thread. A thread that has none gets the next one.
    pub fn slot(&mut self, thread_id: &str) -> (r: usize)
        ensures
            final(self).issued() == old(self).issued(),
            final(self).leased() == old(self).leased(),
            r == slot_in(old(self).threads(), thread_id@),
            final(self).threads() == with_thread(old(self).threads(), thread_id@),
    {
        broadcast use crate::views::group_views;

        proof {
            lemma_slot_of(self.threads(), thread_id@);
        }
        let mut i: usize = 0;
        while i < self.threads.len()
            invariant
                *self == *old(self),
                i <= self.threads@.len(),
                forall|j: int| 0 <= j < i ==> #[trigger] self.threads()[j] != thread_id@,
                match slot_of(self.threads(), thread_id@) {
                    Some(k) => 0 <= k < self.threads().len() && self.threads()[k] == thread_id@
                        && forall|j: int|
                        0 <= j < k ==> #[trigger] self.threads()[j] != thread_id@,
                    None => forall|j: int|
                        0 <= j < self.threads().len() ==> #[trigger] self.threads()[j]
                            != thread_id@,
                },
            decreases self.threads@.len() - i,
        {
            assert(self.threads()[i as int] == self.threads@[i as int]@);
            if text_eq(self.threads[i].as_str(), thread_id) {
                return i;
            }
            i = i + 1;
        }
        self.threads.push(thread_id.to_string());
        i
    }

    /// A lease on a thread: the fence of the next one, or nothing while a lease on
    /// the thread lives.
    pub fn acquire(&mut self, thread_id: &str) -> (r: Option<LeaseFence>)
        ensures
            final(self).threads() == old(self).threads(),
            if old(self).leased().contains(thread_id@) {
                &&& r is None
                &&& final(self).leased() == old(self).leased()
                &&& final(self).issued() == old(self).issued()
            } else {
                &&& r matches Some(fence)
                &&& fence@ == revision::be_bytes(fence_number(old(self).issued()))
                &&& final(self).leased() == old(self).leased().insert(thread_id@)
                &&& final(self).issued() == one_more(old(self).issued())
            },
    {
        broadcast use crate::views::group_views;

        let ghost before = views::all(self.leased@);
        let mut i: usize = 0;
        while i < self.leased.len()
            invariant
                *self == *old(self),
                before == views::all(self.leased@),
                i <= self.leased@.len(),
                forall|k: int| 0 <= k < i ==> #[trigger] before[k] != thread_id@,
            decreases self.leased@.len() - i,
        {
            assert(before[i as int] == self.leased@[i as int]@);
            if text_eq(self.leased[i].as_str(), thread_id) {
                assert(before.to_set().contains(before[i as int]));
                return None;
            }
            i = i + 1;
        }
        assert(!before.to_set().contains(thread_id@));
        self.leased.push(thread_id.to_string());
        assert(views::all(self.leased@) =~= before.push(thread_id@));
        assert(before.push(thread_id@).to_set() =~= before.to_set().insert(thread_id@)) by {
            assert(before.push(thread_id@)[before.len() as int] == thread_id@);
            assert forall|x: Seq<char>| before.contains(x) implies before.push(
                thread_id@,
            ).contains(x) by {
                let k = choose|k: int| 0 <= k < before.len() && before[k] == x;
                assert(before.push(thread_id@)[k] == x);
            }
        }
        let number = self.issued.saturating_add(1);
        self.issued = if self.issued == u64::MAX {
            0
        } else {
            self.issued + 1
        };
        Some(LeaseFence(be_bytes_of(number)))
    }

    /// Gives back the lease on a thread.
    pub fn release(&mut self, thread_id: &str)
        ensures
            final(self).threads() == old(self).threads(),
            final(self).issued() == old(self).issued(),
            final(self).leased() == old(self).leased().remove(thread_id@),
    {
        broadcast use crate::views::group_views;

        let ghost before = views::all(self.leased@);
        let mut left: Vec<String> = Vec::new();
        let mut i: usize = 0;
        while i < self.leased.len()
            invariant
                *self == *old(self),
                before == views::all(self.leased@),
                i <= self.leased@.len(),
                forall|k: int|
                    0 <= k < left@.len() ==> before.contains(#[trigger] views::all(left@)[k])
                        && views::all(left@)[k] != thread_id@,
                forall|k: int|
                    0 <= k < i && before[k] != thread_id@ ==> views::all(left@).contains(
                        #[trigger] before[k],
                    ),
            decreases self.leased@.len() - i,
        {
            let ghost kept = views::all(left@);
            assert(before[i as int] == self.leased@[i as int]@);
            if !text_eq(self.leased[i].as_str(), thread_id) {
                left.push(self.leased[i].clone());
                assert(views::all(left@) =~= kept.push(before[i as int]));
                assert(views::all(left@)[kept.len() as int] == before[i as int]);
                assert forall|x: Seq<char>| kept.contains(x) implies views::all(
                    left@,
                ).contains(x) by {
                    let k = choose|k: int| 0 <= k < kept.len() && kept[k] == x;
                    assert(views::all(left@)[k] == x);
                }
            }
            i = i + 1;
        }
        self.leased = left;
        assert(self.leased() =~= old(self).leased().remove(thread_id@));
    }
}

/// The counter after one lease more; it starts over at its end.
pub open spec fn one_more(issued: u64) -> u64 {
    if issued == u64::MAX {
        0
    } else {
        (issued + 1) as u64
    }
}

/// The number on the fence after `issued` leases.
pub open spec fn fence_number(issued: u64) -> u64 {
    if issued == u64::MAX {
        u64::MAX
    } else {
        (issued + 1) as u64
    }
}

impl Default for LocalSessionCoordinator {
    fn default() -> (r: Self)
        ensures
            r.threads() == Seq::<Seq<char>>::empty(),
            r.leased() == Set::<Seq<char>>::empty(),
            r.issued() == 0,
    {
        let r = LocalSessionCoordinator {
            threads: Vec::new(),
            leased: Vec::new(),
            issued: 0,
        };
        assert(r.threads() =~= Seq::<Seq<char>>::empty());
        assert(r.leased() =~= Set::<Seq<char>>::empty());
        r
    }
}

/// Leases receive distinct fences, as long as the counter has not reached its
/// end, and no fence is all zeros.
pub proof fn law_fences_differ(first: u64, second: u64)
    requires
        first < second < u64::MAX,
    ensures
        revision::be_bytes(fence_number(first)) != revision::be_bytes(fence_number(second)),
        revision::be_bytes(fence_number(first)) != revision::be_bytes(0),
{
    revision::law_numbered_tokens_differ(fence_number(first), fence_number(second));
    revision::law_numbered_tokens_differ(fence_number(first), 0);
}

/// Two threads never share a slot.
pub proof fn law_slots_differ(threads: Seq<Seq<char>>, a: Seq<char>, b: Seq<char>)
    requires
        a != b,
        slot_of(threads, a) is Some,
        slot_of(threads, b) is Some,
    ensures
        slot_of(threads, a) != slot_of(threads, b),
{
    lemma_slot_of(threads, a);
    lemma_slot_of(threads, b);
}

// ---------------------------------------------------------------------------
// Whole runs

/// What a coordinator is asked for: the slot of a thread, a lease on it, or to
/// take a lease back.
pub enum SessionRequest {
    Slot { thread_id: Seq<char> },
    Acquire { thread_id: Seq<char> },
    Release { thread_id: Seq<char> },
}

/// The thread that a request is about.
pub open spec fn subject(request: SessionRequest) -> Seq<char> {
    match request {
        SessionRequest::Slot { thread_id } => thread_id,
        SessionRequest::Acquire { thread_id } => thread_id,
        SessionRequest::Release { thread_id } => thread_id,
    }
}

/// The threads that have a slot after the given requests to a new coordinator.
pub open spec fn threads_after(requests: Seq<SessionRequest>) -> Seq<Seq<char>>
    decreases requests.len(),
{
    if requests.len() == 0 {
        Seq::empty()
    } else {
        let threads = threads_after(requests.drop_last());
        match requests.last() {
            SessionRequest::Slot { thread_id } => with_thread(threads, thread_id),
            _ => threads,
        }
    }
}

/// The threads that are leased after the given requests to a new coordinator.
pub open spec fn leased_after(requests: Seq<SessionRequest>) -> Set<Seq<char>>
    decreases requests.len(),
{
    if requests.len() == 0 {
        Set::empty()
    } else {
        let leased = leased_after(requests.drop_last());
        match requests.last() {
            SessionRequest::Slot { thread_id } => leased,
            SessionRequest::Acquire { thread_id } => leased.insert(thread_id),
            SessionRequest::Release { thread_id } => leased.remove(thread_id),
        }
    }
}

/// Whether request `i` is one for a lease, and a lease is given.
pub open spec fn granted_at(requests: Seq<SessionRequest>, i: int) -> bool {
    requests[i] is Acquire && !leased_after(requests.take(i)).contains(subject(requests[i]))
}

/// The counter after the given requests to a new coordinator.
pub open spec fn issued_after(requests: Seq<SessionRequest>) -> u64
    decreases requests.len(),
{
    if requests.len() == 0 {
        0
    } else {
        let issued = issued_after(requests.drop_last());
        if granted_at(requests, requests.len() - 1) {
            one_more(issued)
        } else {
            issued
        }
    }
}

/// How many leases the given requests to a new coordinator lead to.
pub open spec fn leases(requests: Seq<SessionRequest>) -> nat
    decreases requests.len(),
{
    if requests.len() == 0 {
        0
    } else {
        leases(requests.drop_last()) + if granted_at(requests, requests.len() - 1) {
            1nat
        } else {
            0nat
        }
    }
}

/// The fence of the lease that is given at request `i`.
pub open spec fn fence_at(requests: Seq<SessionRequest>, i: int) -> Seq<u8> {
    revision::be_bytes(fence_number(issued_after(requests.take(i))))
}

/// Whether the lease that is given at request `i` still lives before request `j`:
/// it has not been taken back.
pub open spec fn lives(requests: Seq<SessionRequest>, i: int, j: int) -> bool {
    &&& 0 <= i < j
    &&& granted_at(requests, i)
    &&& forall|k: int|
        i < k < j && #[trigger] requests[k] is Release ==> subject(requests[k]) != subject(
            requests[i],
        )
}

/// The slot that is given at request `i`.
pub open spec fn slot_at(requests: Seq<SessionRequest>, i: int) -> int {
    slot_in(threads_after(requests.take(i)), subject(requests[i]))
}

proof fn lemma_granted(requests: Seq<SessionRequest>, i: int, n: int)
    requires
        0 <= i < n <= requests.len(),
    ensures
        granted_at(requests.take(n), i) == granted_at(requests, i),
{
    assert(requests.take(n).take(i) =~= requests.take(i));
}

proof fn lemma_leases_grow(requests: Seq<SessionRequest>, i: int, j: int)
    requires
        0 <= i <= j <= requests.len(),
    ensures
        leases(requests.take(i)) <= leases(requests.take(j)),
        i < j && granted_at(requests, i) ==> leases(requests.take(i)) < leases(requests.take(j)),
    decreases j - i,
{
    if i < j {
        lemma_leases_grow(requests, i, j - 1);
        lemma_granted(requests, j - 1, j);
        assert(requests.take(j).drop_last() =~= requests.take(j - 1));
    }
}

proof fn lemma_issued(requests: Seq<SessionRequest>)
    requires
        leases(requests) <= u64::MAX,
    ensures
        issued_after(requests) == leases(requests),
    decreases requests.len(),
{
    if requests.len() > 0 {
        lemma_issued(requests.drop_last());
    }
}

/// A thread is leased where a lease on it lives.
proof fn lemma_leased(requests: Seq<SessionRequest>, n: int, thread_id: Seq<char>)
    requires
        0 <= n <= requests.len(),
    ensures
        leased_after(requests.take(n)).contains(thread_id) <==> exists|i: int| #[trigger]
            lives(requests, i, n) && subject(requests[i]) == thread_id,
    decreases n,
{
    if n > 0 {
        let last = n - 1;
        lemma_leased(requests, last, thread_id);
        assert(requests.take(n).drop_last() =~= requests.take(last));
        assert(requests.take(n).last() == requests[last]);
        if leased_after(requests.take(n)).contains(thread_id) {
            if leased_after(requests.take(last)).contains(thread_id) {
                let i = choose|i: int| #[trigger]
                    lives(requests, i, last) && subject(requests[i]) == thread_id;
                assert(lives(requests, i, n));
            } else {
                assert(granted_at(requests, last));
                assert(lives(requests, last, n));
            }
        }
        if exists|i: int| #[trigger] lives(requests, i, n) && subject(requests[i]) == thread_id {
            let i = choose|i: int| #[trigger]
                lives(requests, i, n) && subject(requests[i]) == thread_id;
            if i < last {
                assert(lives(requests, i, last));
            }
        }
    }
}

proof fn lemma_slots_stay(requests: Seq<SessionRequest>, i: int, j: int)
    requires
        0 <= i <= j <= requests.len(),
    ensures
        threads_after(requests.take(i)).is_prefix_of(threads_after(requests.take(j))),
    decreases j - i,
{
    if i < j {
        lemma_slots_stay(requests, i, j - 1);
        assert(requests.take(j).drop_last() =~= requests.take(j - 1));
        let earlier = threads_after(requests.take(i));
        let middle = threads_after(requests.take(j - 1));
        let later = threads_after(requests.take(j));
        assert(middle.is_prefix_of(later));
        assert(earlier =~= later.take(earlier.len() as int)) by {
            assert(earlier =~= middle.take(earlier.len() as int));
        }
    }
}

/// A slot that was given at request `i` is the first with its thread's name ever
/// after.
proof fn lemma_slot_given(requests: Seq<SessionRequest>, i: int)
    requires
        0 <= i < requests.len(),
        requests[i] is Slot,
    ensures
        slot_of(threads_after(requests), subject(requests[i])) == Some(slot_at(requests, i)),
{
    let thread_id = subject(requests[i]);
    let before = threads_after(requests.take(i));
    let given = threads_after(requests.take(i + 1));
    let later = threads_after(requests);
    assert(requests.take(i + 1).drop_last() =~= requests.take(i));
    assert(given == with_thread(before, thread_id));
    lemma_slots_stay(requests, i + 1, requests.len() as int);
    assert(requests.take(requests.len() as int) =~= requests);
    lemma_slot_of(before, thread_id);
    lemma_slot_of(later, thread_id);
    let slot = slot_at(requests, i);
    assert(given[slot] == thread_id);
    assert forall|k: int| 0 <= k < given.len() implies given[k] == later[k] by {
        assert(given =~= later.take(given.len() as int));
        assert(given[k] == later.take(given.len() as int)[k]);
    }
    assert(later[slot] == thread_id);
    assert forall|k: int| 0 <= k < slot implies later[k] != thread_id by {
        assert(later[k] == before[k]);
    }
}

/// Over all that is ever asked of a new coordinator, short of the end of its
/// counter: the fence of the n-th lease is the eight bytes of n, so that no two
/// are the same and none is zero; a lease on a thread is refused exactly while
/// one lives, whatever is leased otherwise; and a thread always has one slot,
/// which no other thread has.
pub proof fn law_leases_over_a_run(requests: Seq<SessionRequest>)
    requires
        leases(requests) <= u64::MAX,
    ensures
        forall|i: int|
            0 <= i < requests.len() && #[trigger] granted_at(requests, i) ==> fence_at(requests, i)
                == revision::be_bytes((leases(requests.take(i)) + 1) as u64) && fence_at(
                requests,
                i,
            ) != revision::be_bytes(0),
        forall|i: int, j: int|
            0 <= i < j < requests.len() && #[trigger] granted_at(requests, i) && #[trigger]
                granted_at(requests, j) ==> fence_at(requests, i) != fence_at(requests, j),
        forall|j: int|
            0 <= j < requests.len() && #[trigger] requests[j] is Acquire ==> (!granted_at(
                requests,
                j,
            ) <==> exists|i: int| #[trigger]
                lives(requests, i, j) && subject(requests[i]) == subject(requests[j])),
        forall|i: int, j: int|
            0 <= i < requests.len() && 0 <= j < requests.len() && #[trigger] requests[i] is Slot
                && #[trigger] requests[j] is Slot ==> (slot_at(requests, i) == slot_at(requests, j)
                <==> subject(requests[i]) == subject(requests[j])),
{
    let n = requests.len() as int;
    assert(requests.take(n) =~= requests);
    assert forall|i: int| 0 <= i < requests.len() && #[trigger] granted_at(
        requests,
        i,
    ) implies fence_at(requests, i) == revision::be_bytes(
        (leases(requests.take(i)) + 1) as u64,
    ) && fence_at(requests, i) != revision::be_bytes(0) by {
        lemma_leases_grow(requests, i, n);
        lemma_issued(requests.take(i));
        revision::law_numbered_tokens_differ((leases(requests.take(i)) + 1) as u64, 0);
    }
    assert forall|i: int, j: int|
        0 <= i < j < requests.len() && #[trigger] granted_at(requests, i) && #[trigger] granted_at(
            requests,
            j,
        ) implies fence_at(requests, i) != fence_at(requests, j) by {
        lemma_leases_grow(requests, i, j);
        lemma_leases_grow(requests, j, n);
        lemma_issued(requests.take(i));
        lemma_issued(requests.take(j));
        revision::law_numbered_tokens_differ(
            (leases(requests.take(i)) + 1) as u64,
            (leases(requests.take(j)) + 1) as u64,
        );
    }
    assert forall|j: int| 0 <= j < requests.len() && #[trigger] requests[j] is Acquire implies (
    !granted_at(requests, j) <==> exists|i: int| #[trigger]
        lives(requests, i, j) && subject(requests[i]) == subject(requests[j])) by {
        lemma_leased(requests, j, subject(requests[j]));
    }
    assert forall|i: int, j: int|
        0 <= i < requests.len() && 0 <= j < requests.len() && #[trigger] requests[i] is Slot
            && #[trigger] requests[j] is Slot implies (slot_at(requests, i) == slot_at(requests, j)
        <==> subject(requests[i]) == subject(requests[j])) by {
        lemma_slot_given(requests, i);
        lemma_slot_given(requests, j);
        lemma_slot_of(threads_after(requests), subject(requests[i]));
        lemma_slot_of(threads_after(requests), subject(requests[j]));
    }
}

} // verus!
