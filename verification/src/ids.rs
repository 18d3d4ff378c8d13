//! Identifiers and time stamps.
use crate::text::{self, decimal_text};
use vstd::prelude::*;

verus! {

/// Where identifiers and time stamps come from: what the clock showed when it
/// was last read, and a counter that tells identifiers of one moment apart.
#[derive(Debug, Clone, Copy, PartialEq, Eq, Structural)]
pub struct IdSource {
    /// Milliseconds since the epoch.
    pub millis: u128,
    /// The number that the next identifier takes.
    pub counter: u64,
}

/// The identifier that a source gives out next.
pub open spec fn id_text(prefix: Seq<char>, ids: IdSource) -> Seq<char> {
    prefix.push('_') + text::decimal(ids.millis as nat).push('_') + text::decimal(
        ids.counter as nat,
    )
}

/// The time stamp of a source: whole seconds since the epoch.
pub open spec fn stamp(ids: IdSource) -> Seq<char> {
    text::decimal(ids.millis as nat / 1000)
}

/// The source after it has given out `n` identifiers. The counter starts over
/// after the largest number.
pub open spec fn after(ids: IdSource, n: nat) -> IdSource {
    IdSource { millis: ids.millis, counter: ((ids.counter + n) % 0x1_0000_0000_0000_0000) as u64 }
}

// ---------------------------------------------------------------------------
// The clock

/// `std::time::SystemTime`, a reading of the clock.
#[verifier::external_type_specification]
#[verifier::external_body]
pub struct ExSystemTime(std::time::SystemTime);

/// `std::time::SystemTimeError`: a moment lies before the one it is measured from.
#[verifier::external_type_specification]
#[verifier::external_body]
pub struct ExSystemTimeError(std::time::SystemTimeError);

/// Nanoseconds from the epoch to a reading of the clock.
pub uninterp spec fn nanos_after_epoch(now: std::time::SystemTime) -> int;

/// How many nanoseconds a duration lasts.
pub uninterp spec fn nanos_in(span: std::time::Duration) -> int;

/// `SystemTime::now`. Nothing holds of the moment at which it is called.
pub assume_specification[ std::time::SystemTime::now ]() -> (r: std::time::SystemTime)
;

/// `SystemTime::duration_since` the epoch: the time that has passed, or an
/// error for a clock that is set before the epoch.
#[verifier::external_body]
fn since_epoch(now: std::time::SystemTime) -> (r: Result<
    std::time::Duration,
    std::time::SystemTimeError,
>)
    ensures
        r is Ok <==> nanos_after_epoch(now) >= 0,
        r matches Ok(span) ==> nanos_in(span) == nanos_after_epoch(now),
{
    now.duration_since(std::time::UNIX_EPOCH)
}

/// `Duration::as_millis`: the whole milliseconds of a duration.
#[verifier::external_body]
fn whole_millis(span: std::time::Duration) -> (r: u128)
    ensures
        r == nanos_in(span) / 1_000_000,
{
    span.as_millis()
}

/// The milliseconds since the epoch that a reading of the clock shows, 0 for
/// one before it.
pub open spec fn millis_at(now: std::time::SystemTime) -> int {
    if nanos_after_epoch(now) >= 0 {
        nanos_after_epoch(now) / 1_000_000
    } else {
        0
    }
}

/// Milliseconds since the epoch at a reading of the clock.
pub fn millis_of(now: std::time::SystemTime) -> (r: u128)
    ensures
        r == millis_at(now),
{
    match since_epoch(now) {
        Ok(span) => whole_millis(span),
        Err(_) => 0,
    }
}

// ---------------------------------------------------------------------------
// Giving out

impl IdSource {
    /// A source that has given out nothing, with the clock not yet read.
    pub fn new() -> (r: Self)
        ensures
            r == (IdSource { millis: 0, counter: 1 }),
    {
        IdSource { millis: 0, counter: 1 }
    }

    /// Reads the clock.
    pub fn read_clock(&mut self)
        ensures
            final(self).counter == old(self).counter,
            exists|now: std::time::SystemTime| final(self).millis == #[trigger] millis_at(now),
    {
        let now = std::time::SystemTime::now();
        self.millis = millis_of(now);
    }

    /// The next identifier that starts with `prefix`.
    pub fn issue(&mut self, prefix: &str) -> (r: String)
        ensures
            r@ == id_text(prefix@, *old(self)),
            *final(self) == after(*old(self), 1),
    {
        let mut r = prefix.to_string();
        r.push('_');
        r.append(decimal_text(self.millis).as_str());
        r.push('_');
        r.append(decimal_text(self.counter as u128).as_str());
        assert(r@ =~= id_text(prefix@, *old(self)));
        self.counter = if self.counter == u64::MAX {
            0
        } else {
            self.counter + 1
        };
        r
    }

    /// The time stamp of the moment at which the clock was last read.
    pub fn timestamp(&self) -> (r: String)
        ensures
            r@ == stamp(*self),
    {
        decimal_text(self.millis / 1000)
    }
}

/// A new identifier: the prefix, the time in milliseconds and a running number.
pub fn new_id(prefix: &str, ids: &mut IdSource) -> (r: String)
    ensures
        r@ == id_text(
            prefix@,
            (IdSource { millis: final(ids).millis, counter: old(ids).counter }),
        ),
        final(ids).counter == after(*old(ids), 1).counter,
        exists|now: std::time::SystemTime| final(ids).millis == #[trigger] millis_at(now),
{
    ids.read_clock();
    ids.issue(prefix)
}

/// The time in whole seconds since the epoch.
pub fn now_timestamp() -> (r: String)
    ensures
        exists|now: std::time::SystemTime|
            r@ == text::decimal(#[trigger] millis_at(now) as nat / 1000),
{
    let mut ids = IdSource::new();
    ids.read_clock();
    ids.timestamp()
}

// ---------------------------------------------------------------------------
// Laws

/// Identifiers that one source gives out are all different, whatever they start
/// with, as long as the counter has not gone round.
pub proof fn law_ids_differ(p: Seq<char>, first: IdSource, q: Seq<char>, second: IdSource)
    requires
        first.counter != second.counter,
    ensures
        id_text(p, first) != id_text(q, second),
{
    text::lemma_decimal_digits(first.counter as nat);
    text::lemma_decimal_digits(second.counter as nat);
    let a = id_text(p, first);
    let b = id_text(q, second);
    let da = text::decimal(first.counter as nat);
    let db = text::decimal(second.counter as nat);
    if a == b {
        let ka = a.len() - da.len();
        let kb = b.len() - db.len();
        assert(a[ka - 1] == '_');
        assert(b[kb - 1] == '_');
        assert forall|i: int| ka <= i < a.len() implies a[i] != '_' by {
            assert(a[i] == da[i - ka]);
        }
        assert forall|i: int| kb <= i < b.len() implies b[i] != '_' by {
            assert(b[i] == db[i - kb]);
        }
        assert(ka == kb);
        assert(da =~= a.subrange(ka, a.len() as int));
        assert(db =~= b.subrange(kb, b.len() as int));
        text::lemma_decimal_injective(first.counter as nat, second.counter as nat);
    }
}

/// The counters of up to 2^64 identifiers given out in a row are all different.
pub proof fn law_counters_differ(ids: IdSource, i: nat, j: nat)
    requires
        i < j,
        j < i + 0x1_0000_0000_0000_0000,
    ensures
        after(ids, i).counter != after(ids, j).counter,
{
}

/// Giving out identifiers one after another is the same as counting on.
pub proof fn lemma_after_after(ids: IdSource, i: nat, j: nat)
    ensures
        after(after(ids, i), j) == after(ids, i + j),
{
}

} // verus!
