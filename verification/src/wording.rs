//! What holds of texts: numerals, trimming, joining and order, and the words in
//! which identifiers, stamps and errors are written.
use crate::error::{self, AgentErrorView};
use crate::ids::{self, IdSource};
use crate::kernel::events::{self, TokenUsage};
use crate::kernel::revision;
use crate::observability::{self, LoggingErrorView};
use crate::runtime::store;
use crate::text;
use vstd::prelude::*;

verus! {

// ---------------------------------------------------------------------------
// Numerals

/// The number that digits stand for, read from the left.
pub open spec fn number_of(digits: Seq<char>) -> int
    decreases digits.len(),
{
    if digits.len() == 0 {
        0
    } else {
        10 * number_of(digits.drop_last()) + (digits.last() as u32 - '0' as u32)
    }
}

/// A numeral is made of digits, stands for its number when it is read, and has no
/// leading zero.
pub proof fn law_numeral_is_read_back(n: nat)
    ensures
        number_of(text::decimal(n)) == n,
        text::decimal(n).len() > 0,
        forall|i: int|
            0 <= i < text::decimal(n).len() ==> '0' <= #[trigger] text::decimal(n)[i] <= '9',
        n > 0 ==> text::decimal(n)[0] != '0',
        n == 0 ==> text::decimal(n) == seq!['0'],
    decreases n,
{
    text::lemma_decimal_digits(n);
    let digits = text::decimal(n);
    if n >= 10 {
        law_numeral_is_read_back(n / 10);
        assert(digits.drop_last() =~= text::decimal(n / 10));
        assert(digits[0] == text::decimal(n / 10)[0]);
    } else {
        assert(digits.drop_last() =~= Seq::<char>::empty());
        assert(number_of(digits.drop_last()) == 0);
    }
    assert(digits.last() as u32 == 48 + n % 10);
}

/// An identifier is its prefix, the milliseconds and the number of its source, with
/// underscores between; a stamp is the whole seconds of its source; and each
/// identifier takes the next number, starting over after the largest.
pub proof fn law_identifier_is_of_its_source(prefix: Seq<char>, ids: IdSource)
    ensures
        ids::id_text(prefix, ids) == prefix + seq!['_'] + text::decimal(ids.millis as nat) + seq![
            '_',
        ] + text::decimal(ids.counter as nat),
        number_of(ids::stamp(ids)) * 1000 <= ids.millis < (number_of(ids::stamp(ids)) + 1) * 1000,
        ids::after(ids, 1).millis == ids.millis,
        ids.counter < u64::MAX ==> ids::after(ids, 1).counter == ids.counter + 1,
        ids.counter == u64::MAX ==> ids::after(ids, 1).counter == 0,
        ids::after(ids, 0) == ids,
{
    law_numeral_is_read_back(ids.millis as nat / 1000);
    assert(ids::id_text(prefix, ids) =~= prefix + seq!['_'] + text::decimal(ids.millis as nat)
        + seq!['_'] + text::decimal(ids.counter as nat));
}

/// The token after another stands for the next number, up to the largest; the one
/// after a token that stands for no number is the first.
pub proof fn law_next_token_counts_on(value: u64, other: Seq<u8>)
    ensures
        value < u64::MAX ==> store::next_token(revision::be_bytes(value)) == revision::be_bytes(
            (value + 1) as u64,
        ),
        value == u64::MAX ==> store::next_token(revision::be_bytes(value)) == revision::be_bytes(
            value,
        ),
        other.len() != 8 ==> store::next_token(other) == seq![0u8, 0, 0, 0, 0, 0, 0, 1],
{
    revision::law_be_bytes_value(value);
    if other.len() != 8 {
        assert(revision::be_bytes(1) =~= seq![0u8, 0, 0, 0, 0, 0, 0, 1]);
    }
}

// ---------------------------------------------------------------------------
// Trimming, joining, order

/// White space is a blank, a tab, a line's end or the like, and no letter, digit
/// or mark of ASCII.
pub proof fn law_what_white_space_is(c: char)
    ensures
        text::white_space(' '),
        text::white_space('\n'),
        text::white_space('\r'),
        text::white_space('\t'),
        '!' <= c <= '~' ==> !text::white_space(c),
{
}

/// A text is trimmed to what lies between two places: all before and all after is
/// white space, and what is left neither starts nor ends with any.
pub proof fn law_trimming_takes_white_space_only(s: Seq<char>) -> (ends: (int, int))
    ensures
        0 <= ends.0 <= ends.1 <= s.len(),
        text::trimmed(s) == s.subrange(ends.0, ends.1),
        forall|i: int| 0 <= i < ends.0 ==> text::white_space(#[trigger] s[i]),
        forall|i: int| ends.1 <= i < s.len() ==> text::white_space(#[trigger] s[i]),
        ends.0 < ends.1 ==> !text::white_space(s[ends.0]) && !text::white_space(s[ends.1 - 1]),
{
    let from = lemma_front(s);
    let front = text::trim_front(s);
    let kept = lemma_back(front);
    assert(text::trimmed(s) =~= s.subrange(from, from + kept));
    assert forall|i: int| from + kept <= i < s.len() implies text::white_space(
        #[trigger] s[i],
    ) by {
        assert(front[i - from] == s[i]);
    }
    if kept > 0 {
        assert(front[kept - 1] == s[from + kept - 1]);
        assert(front[0] == s[from]);
    }
    (from, from + kept)
}

proof fn lemma_front(s: Seq<char>) -> (from: int)
    ensures
        0 <= from <= s.len(),
        text::trim_front(s) == s.subrange(from, s.len() as int),
        forall|i: int| 0 <= i < from ==> text::white_space(#[trigger] s[i]),
        from < s.len() ==> !text::white_space(s[from]),
    decreases s.len(),
{
    if s.len() > 0 && text::white_space(s[0]) {
        let rest = s.drop_first();
        let k = lemma_front(rest);
        assert(text::trim_front(s) =~= s.subrange(k + 1, s.len() as int));
        assert forall|i: int| 0 <= i < k + 1 implies text::white_space(#[trigger] s[i]) by {
            if i > 0 {
                assert(rest[i - 1] == s[i]);
            }
        }
        if k < rest.len() {
            assert(rest[k] == s[k + 1]);
        }
        k + 1
    } else {
        assert(s =~= s.subrange(0, s.len() as int));
        0
    }
}

proof fn lemma_back(s: Seq<char>) -> (to: int)
    ensures
        0 <= to <= s.len(),
        text::trim_back(s) == s.take(to),
        forall|i: int| to <= i < s.len() ==> text::white_space(#[trigger] s[i]),
        to > 0 ==> !text::white_space(s[to - 1]),
    decreases s.len(),
{
    if s.len() > 0 && text::white_space(s.last()) {
        let rest = s.drop_last();
        let k = lemma_back(rest);
        assert(text::trim_back(s) =~= s.take(k));
        assert forall|i: int| k <= i < s.len() implies text::white_space(#[trigger] s[i]) by {
            if i < rest.len() {
                assert(rest[i] == s[i]);
            }
        }
        if k > 0 {
            assert(rest[k - 1] == s[k - 1]);
        }
        k
    } else {
        assert(s =~= s.take(s.len() as int));
        s.len() as int
    }
}

/// A text without its trailing run of a character is the text up to that run, and
/// does not end in the character.
pub proof fn law_trailing_run_is_taken_away(s: Seq<char>, c: char) -> (to: int)
    ensures
        0 <= to <= s.len(),
        text::without_trailing(s, c) == s.take(to),
        forall|i: int| to <= i < s.len() ==> #[trigger] s[i] == c,
        to > 0 ==> s[to - 1] != c,
    decreases s.len(),
{
    if s.len() > 0 && s.last() == c {
        let rest = s.drop_last();
        let k = law_trailing_run_is_taken_away(rest, c);
        assert(text::without_trailing(s, c) =~= s.take(k));
        assert forall|i: int| k <= i < s.len() implies #[trigger] s[i] == c by {
            if i < rest.len() {
                assert(rest[i] == s[i]);
            }
        }
        if k > 0 {
            assert(rest[k - 1] == s[k - 1]);
        }
        k
    } else {
        assert(s =~= s.take(s.len() as int));
        s.len() as int
    }
}

/// The capital letters of ASCII become small ones, each its own; nothing else
/// changes.
pub proof fn law_lower_case(c: char)
    ensures
        'A' <= c <= 'Z' ==> 'a' <= text::lower(c) <= 'z' && text::lower(c) as u32 - 'a' as u32 == c
            as u32 - 'A' as u32,
        !('A' <= c <= 'Z') ==> text::lower(c) == c,
{
}

/// Joined texts are the texts in their order, with the separator between any two
/// and nowhere else.
pub proof fn law_joining_separates(
    parts: Seq<Seq<char>>,
    part: Seq<char>,
    separator: Seq<char>,
)
    ensures
        text::join_text(Seq::empty(), separator) == Seq::<char>::empty(),
        text::join_text(seq![part], separator) == part,
        parts.len() > 0 ==> text::join_text(parts.push(part), separator) == text::join_text(
            parts,
            separator,
        ) + separator + part,
{
    assert(parts.push(part).drop_last() =~= parts);
}

/// A text comes before another exactly where they agree up to a place at which the
/// first has ended, or has the smaller character.
pub proof fn law_order_of_texts(a: Seq<char>, b: Seq<char>)
    ensures
        text::precedes(a, b) <==> exists|k: int| #[trigger] decides(a, b, k),
    decreases a.len(),
{
    if b.len() == 0 {
    } else if a.len() == 0 {
        assert(decides(a, b, 0));
    } else if a[0] != b[0] {
        if a[0] < b[0] {
            assert(decides(a, b, 0));
        }
        assert forall|k: int| #[trigger] decides(a, b, k) implies a[0] < b[0] by {
            if k > 0 {
                assert(a[0] == b[0]);
            }
        }
    } else {
        let x = a.skip(1);
        let y = b.skip(1);
        law_order_of_texts(x, y);
        if text::precedes(x, y) {
            let k = choose|k: int| #[trigger] decides(x, y, k);
            assert forall|i: int| 0 <= i < k + 1 implies #[trigger] a[i] == b[i] by {
                if i > 0 {
                    assert(x[i - 1] == y[i - 1]);
                }
            }
            if k < x.len() {
                assert(x[k] == a[k + 1] && y[k] == b[k + 1]);
            }
            assert(decides(a, b, k + 1));
        }
        if exists|k: int| #[trigger] decides(a, b, k) {
            let k = choose|k: int| #[trigger] decides(a, b, k);
            assert(k > 0);
            assert forall|i: int| 0 <= i < k - 1 implies #[trigger] x[i] == y[i] by {
                assert(a[i + 1] == b[i + 1]);
            }
            assert(decides(x, y, k - 1));
        }
    }
}

/// Whether two texts agree before a place, and the first has ended there or has the
/// smaller character, while the second has not ended.
pub open spec fn decides(a: Seq<char>, b: Seq<char>, k: int) -> bool {
    &&& 0 <= k <= a.len()
    &&& k < b.len()
    &&& forall|i: int| 0 <= i < k ==> #[trigger] a[i] == b[i]
    &&& k == a.len() || a[k] < b[k]
}

/// A text holds another exactly where it is something, then the other, then
/// something.
pub proof fn law_what_a_text_holds(s: Seq<char>, part: Seq<char>)
    ensures
        text::occurs(s, part) <==> exists|before: Seq<char>, after: Seq<char>|
            s == #[trigger] (before + part + after),
{
    if text::occurs(s, part) {
        let i = choose|i: int| text::occurs_at(s, part, i);
        let before = s.take(i);
        let after = s.skip(i + part.len());
        assert forall|j: int| 0 <= j < s.len() implies s[j] == (before + part + after)[j] by {
            if i <= j < i + part.len() {
                assert(s.subrange(i, i + part.len())[j - i] == s[j]);
            }
        }
        assert(s =~= before + part + after);
    }
    if exists|before: Seq<char>, after: Seq<char>| s == #[trigger] (before + part + after) {
        let (before, after) = choose|before: Seq<char>, after: Seq<char>|
            s == #[trigger] (before + part + after);
        let i = before.len() as int;
        assert(s.subrange(i, i + part.len()) =~= part);
        assert(text::occurs_at(s, part, i));
    }
}

// ---------------------------------------------------------------------------
// Errors and usage

/// An error says in words what kind it is, and after that all that it holds: whose
/// error it is and what was expected, found or exceeded, in this order. The tokens
/// of a conflict are opaque and are not shown.
pub proof fn law_error_says_what_it_is(
    a: Seq<char>,
    b: Seq<char>,
    m: u64,
    n: u64,
    k: usize,
    l: usize,
    old_token: Seq<u8>,
    new_token: Seq<u8>,
)
    ensures
        error::words(AgentErrorView::ThreadNotFound(a)) == "thread not found: "@ + a,
        error::words(AgentErrorView::InvalidThreadId(a)) == "invalid thread id: "@ + a,
        error::words(AgentErrorView::StoreLocked(a)) == "thread store directory is already owned: "@
            + a,
        error::words(
            AgentErrorView::VersionConflict { thread_id: a, expected: m, actual: n },
        ) == "thread version conflict for "@ + a + ": expected "@ + text::decimal(m as nat)
            + ", actual "@ + text::decimal(n as nat),
        error::words(
            AgentErrorView::RevisionConflict {
                thread_id: a,
                expected: old_token,
                actual: new_token,
            },
        ) == "thread revision conflict for "@ + a,
        error::words(AgentErrorView::SuspendedTurn { thread_id: a, suspension_id: b }) == "thread "@
            + a + " waits for suspension "@ + b,
        error::words(AgentErrorView::SessionCoordinator(a)) == "session coordinator error: "@ + a,
        error::words(AgentErrorView::ContextWindowExceeded { estimated: k, limit: l })
            == "context window exceeded: estimated "@ + text::decimal(k as nat)
            + " tokens, limit "@ + text::decimal(l as nat),
        error::words(AgentErrorView::ContextCompactorContractViolation { estimated: k, limit: l })
            == "context compactor exceeded its budget: estimated "@ + text::decimal(k as nat)
            + " tokens, limit "@ + text::decimal(l as nat),
        error::words(AgentErrorView::TurnNotFound(a)) == "turn not found: "@ + a,
        error::words(AgentErrorView::Io(a)) == "io error: "@ + a,
        error::words(AgentErrorView::Json(a)) == "json error: "@ + a,
        error::words(AgentErrorView::Http(a)) == "http error: "@ + a,
        error::words(AgentErrorView::Reqwest(a)) == "http client error: "@ + a,
        error::words(AgentErrorView::Model(a)) == "model error: "@ + a,
        error::words(AgentErrorView::FunctionNotFound(a)) == "function not found: "@ + a,
        error::words(AgentErrorView::Function { name: a, message: b }) == "function error in "@ + a
            + ": "@ + b,
        error::words(AgentErrorView::InvalidFunctionArguments { name: a, message: b })
            == "invalid function arguments for "@ + a + ": "@ + b,
        error::words(AgentErrorView::MaxIterations(k)) == "turn exceeded max model iterations: "@
            + text::decimal(k as nat),
        error::words(AgentErrorView::Logging(a)) == "logging error: "@ + a,
{
}

/// A log that cannot be opened is reported with the reason; a trace lies under the
/// identifier of its thread.
pub proof fn law_logs_and_traces_are_named(words: Seq<char>, thread_id: Seq<char>)
    ensures
        observability::logging_words(LoggingErrorView::Initialization(words))
            == "logging error: "@ + words,
        observability::trace_file(thread_id) matches Some(name) ==> name == thread_id
            + ".jsonl"@,
{
}

/// A usage says its four numbers, each after its name.
pub proof fn law_usage_says_its_numbers(usage: TokenUsage)
    ensures
        events::usage_words(usage) == "input="@ + text::decimal(usage.input_tokens as nat)
            + ", cached_input="@ + text::decimal(usage.cached_input_tokens as nat) + ", output="@
            + text::decimal(usage.output_tokens as nat) + ", total="@ + text::decimal(
            usage.total_tokens as nat,
        ),
        events::no_usage() == (TokenUsage {
            input_tokens: 0,
            cached_input_tokens: 0,
            output_tokens: 0,
            total_tokens: 0,
        }),
{
}

} // verus!
