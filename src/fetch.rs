use vstd::prelude::*;

use crate::version::{is_ascii_digit, is_digit};

verus! {

/// How many responses the fetcher reads at most before it gives up.
pub const MAX_ATTEMPTS: u32 = 10;

/// Seconds to wait after a response without a version before asking again.
pub const RETRY_DELAY_SECS: u64 = 5;

/// Why fetching the version failed for good.
#[derive(Debug, Clone, Copy, PartialEq, Eq, Structural)]
pub enum FetchError {
    /// The request could not be sent.
    SendFailed,
    /// The response body could not be read as text.
    BodyNotText,
    /// The response body is not JSON.
    NotJson,
    /// The response body holds a run of digits longer than `MAX_DIGIT_RUN`,
    /// which the json crate cannot be trusted to parse.
    DigitRunTooLong,
    /// Every attempt came back without a version.
    NoVersionFound,
}

/// What one request brought back, before it is read.
pub enum Response {
    /// The request could not be sent.
    SendFailed,
    /// The body could not be read as text.
    BodyNotText,
    /// The body, as text.
    Body(String),
}

/// What one attempt amounts to.
#[derive(Debug, PartialEq, Eq)]
pub enum Attempt {
    /// A failure that ends the fetch at once.
    Hard(FetchError),
    /// JSON without a string `name` member: worth asking again.
    Soft,
    /// The version, trimmed.
    Found(String),
}

/// The `name` member of a JSON document, as read by the json crate.
pub enum NameField {
    /// The text is not JSON.
    NotJson,
    /// The document has no `name` member that is a string.
    Missing,
    /// The `name` member, untrimmed.
    Name(String),
}

/// The longest run of ASCII digits handed to the json crate. Its parser
/// lowers an `i16` exponent once for each digit of a number's fraction, so a
/// longer run of digits could overflow it.
pub const MAX_DIGIT_RUN: usize = 32768;

/// How many ASCII digits stand right before position `j` of `s`.
pub open spec fn digit_run_before(s: Seq<char>, j: int) -> nat
    decreases j,
{
    if j <= 0 || j > s.len() || !is_digit(s[j - 1]) {
        0
    } else {
        1 + digit_run_before(s, j - 1)
    }
}

/// No run of ASCII digits in `s` is longer than `MAX_DIGIT_RUN`.
pub open spec fn digit_runs_bounded(s: Seq<char>) -> bool {
    forall|j: int| 0 <= j <= s.len() ==> #[trigger] digit_run_before(s, j) <= MAX_DIGIT_RUN
}

/// Tells whether no run of ASCII digits in `s` is longer than
/// `MAX_DIGIT_RUN`.
pub fn digit_runs_fit(s: &str) -> (r: bool)
    ensures
        r == digit_runs_bounded(s@),
{
    let n = s.unicode_len();
    let mut i: usize = 0;
    let mut run: usize = 0;
    while i < n
        invariant
            n == s@.len(),
            i <= n,
            run == digit_run_before(s@, i as int),
            forall|j: int| 0 <= j <= i ==> #[trigger] digit_run_before(s@, j) <= MAX_DIGIT_RUN,
        decreases n - i,
    {
        if is_ascii_digit(s.get_char(i)) {
            run = run + 1;
        } else {
            run = 0;
        }
        i = i + 1;
        assert(run == digit_run_before(s@, i as int));
        if run > MAX_DIGIT_RUN {
            return false;
        }
    }
    true
}

/// The string member `name` of the JSON document `text`, as the json crate
/// parses it: `None` where `text` is not JSON, `Some(None)` where the
/// document has no `name` member that is a string.
pub uninterp spec fn json_name(text: Seq<char>) -> Option<Option<Seq<char>>>;

/// Relies on `json::parse`, then on indexing the parsed value by `"name"`
/// and `JsonValue::as_str`, which yield a string only for a string member.
/// `json::parse` returns an error rather than panicking, except that a
/// number whose fraction has more than `MAX_DIGIT_RUN` digits overflows its
/// exponent: such text is left out.
#[verifier::external_body]
fn read_name_field(text: &str) -> (r: NameField)
    requires
        digit_runs_bounded(text@),
    ensures
        json_name(text@) is None <==> r is NotJson,
        json_name(text@) == Some(Option::<Seq<char>>::None) <==> r is Missing,
        r matches NameField::Name(s) ==> json_name(text@) == Some(Some(s@)),
{
    match json::parse(text) {
        Err(_) => NameField::NotJson,
        Ok(value) => match value["name"].as_str() {
            Some(s) => NameField::Name(s.to_string()),
            None => NameField::Missing,
        },
    }
}

/// A character with the Unicode property White_Space, which is what
/// `char::is_whitespace` tests.
pub open spec fn is_white_space(c: char) -> bool {
    ('\u{9}' <= c && c <= '\u{d}') || c == ' ' || c == '\u{85}' || c == '\u{a0}'
        || c == '\u{1680}' || ('\u{2000}' <= c && c <= '\u{200a}') || c == '\u{2028}'
        || c == '\u{2029}' || c == '\u{202f}' || c == '\u{205f}' || c == '\u{3000}'
}

/// `t` is `s` without its leading and trailing white space.
pub open spec fn is_trim_of(t: Seq<char>, s: Seq<char>) -> bool {
    exists|i: int, j: int|
        0 <= i <= j <= s.len() && t == #[trigger] s.subrange(i, j) && (forall|k: int|
            0 <= k < i ==> is_white_space(#[trigger] s[k])) && (forall|k: int|
            j <= k < s.len() ==> is_white_space(#[trigger] s[k])) && (t.len() > 0 ==> (
        !is_white_space(t[0]) && !is_white_space(t[t.len() - 1])))
}

/// Relies on `str::trim`: the slice of `s` left once leading and trailing
/// characters with the White_Space property are removed.
#[verifier::external_body]
fn trim(s: &str) -> (r: String)
    ensures
        is_trim_of(r@, s@),
{
    s.trim().to_string()
}

/// What the `name` member of a response amounts to: none at all is a hard
/// failure, one that is absent or not a string is soft, and a string is the
/// version once trimmed.
pub fn attempt_from(field: NameField) -> (a: Attempt)
    ensures
        field is NotJson ==> a == Attempt::Hard(FetchError::NotJson),
        field is Missing ==> a == Attempt::Soft,
        field matches NameField::Name(name) ==> (a matches Attempt::Found(v) && is_trim_of(
            v@,
            name@,
        )),
{
    match field {
        NameField::NotJson => Attempt::Hard(FetchError::NotJson),
        NameField::Missing => Attempt::Soft,
        NameField::Name(name) => Attempt::Found(trim(name.as_str())),
    }
}

/// Reads one response into an attempt. A body with a run of digits longer
/// than `MAX_DIGIT_RUN` is a hard failure and is not parsed.
pub fn read_response(response: Response) -> (a: Attempt)
    ensures
        response is SendFailed ==> a == Attempt::Hard(FetchError::SendFailed),
        response is BodyNotText ==> a == Attempt::Hard(FetchError::BodyNotText),
        response matches Response::Body(text) ==> !digit_runs_bounded(text@) ==> a
            == Attempt::Hard(FetchError::DigitRunTooLong),
        response matches Response::Body(text) ==> digit_runs_bounded(text@) ==> match json_name(text@) {
            None => a == Attempt::Hard(FetchError::NotJson),
            Some(None) => a == Attempt::Soft,
            Some(Some(name)) => a matches Attempt::Found(v) && is_trim_of(v@, name),
        },
{
    match response {
        Response::SendFailed => Attempt::Hard(FetchError::SendFailed),
        Response::BodyNotText => Attempt::Hard(FetchError::BodyNotText),
        Response::Body(text) => {
            if digit_runs_fit(text.as_str()) {
                attempt_from(read_name_field(text.as_str()))
            } else {
                Attempt::Hard(FetchError::DigitRunTooLong)
            }
        },
    }
}

/// What the fetcher asks for after an attempt.
#[derive(Debug, PartialEq, Eq)]
pub enum FetchStep {
    /// Wait `RETRY_DELAY_SECS` seconds, then send the request again.
    Retry,
    /// The fetch is over, with this result.
    Finished(Result<String, FetchError>),
}

/// The fetcher's state after `soft` attempts without a version, on `a`.
/// A hard failure or a version ends the fetch; a soft failure asks again
/// while attempts are left. Once they are spent, every attempt ends the
/// fetch without a version.
pub open spec fn fetch_next(soft: nat, a: Attempt) -> (nat, FetchStep) {
    if soft >= MAX_ATTEMPTS {
        (soft, FetchStep::Finished(Err(FetchError::NoVersionFound)))
    } else {
        match a {
            Attempt::Hard(e) => (soft, FetchStep::Finished(Err(e))),
            Attempt::Found(v) => (soft, FetchStep::Finished(Ok(v))),
            Attempt::Soft => if soft + 1 >= MAX_ATTEMPTS {
                ((soft + 1) as nat, FetchStep::Finished(Err(FetchError::NoVersionFound)))
            } else {
                ((soft + 1) as nat, FetchStep::Retry)
            },
        }
    }
}

/// The steps that the fetcher asks for on `attempts`, one each, from a
/// state with `soft` attempts spent.
pub open spec fn fetch_steps(soft: nat, attempts: Seq<Attempt>) -> Seq<FetchStep>
    decreases attempts.len(),
{
    if attempts.len() == 0 {
        Seq::empty()
    } else {
        let (next, step) = fetch_next(soft, attempts[0]);
        seq![step] + fetch_steps(next, attempts.drop_first())
    }
}

/// `n` attempts that each came back without a version.
pub open spec fn soft_failures(n: nat) -> Seq<Attempt> {
    Seq::new(n, |_i: int| Attempt::Soft)
}

/// `n` requests to wait and ask again.
pub open spec fn retries(n: nat) -> Seq<FetchStep> {
    Seq::new(n, |_i: int| FetchStep::Retry)
}

/// `n` ends of the fetch without a version.
pub open spec fn give_ups(n: nat) -> Seq<FetchStep> {
    Seq::new(n, |_i: int| FetchStep::Finished(Err(FetchError::NoVersionFound)))
}

/// While attempts are left, each soft failure asks for one more try.
proof fn lemma_soft_failures_retry(soft: nat, n: nat, rest: Seq<Attempt>)
    requires
        soft + n < MAX_ATTEMPTS,
    ensures
        fetch_steps(soft, soft_failures(n) + rest) == retries(n) + fetch_steps(soft + n, rest),
    decreases n,
{
    if n == 0 {
        assert(soft_failures(0) + rest =~= rest);
        assert(retries(0) + fetch_steps(soft, rest) =~= fetch_steps(soft, rest));
    } else {
        let all = soft_failures(n) + rest;
        assert(all[0] == Attempt::Soft);
        assert(all.drop_first() =~= soft_failures((n - 1) as nat) + rest);
        lemma_soft_failures_retry(soft + 1, (n - 1) as nat, rest);
        assert(retries(n) + fetch_steps(soft + n, rest) =~= seq![FetchStep::Retry] + (retries(
            (n - 1) as nat,
        ) + fetch_steps(soft + n, rest)));
    }
}

/// Once the attempts are spent, every further attempt ends the fetch
/// without a version, and none asks for another try.
proof fn lemma_spent_gives_up(soft: nat, rest: Seq<Attempt>)
    requires
        soft >= MAX_ATTEMPTS,
    ensures
        fetch_steps(soft, rest) == give_ups(rest.len()),
    decreases rest.len(),
{
    if rest.len() == 0 {
        assert(fetch_steps(soft, rest) =~= give_ups(0));
    } else {
        lemma_spent_gives_up(soft, rest.drop_first());
        assert(fetch_steps(soft, rest) =~= give_ups(rest.len()));
    }
}

/// Soft failures, fewer than the attempts allowed, then a version: the
/// fetcher asks for exactly one retry per soft failure and then ends with
/// that version.
pub proof fn lemma_retries_then_version(n: nat, v: String)
    requires
        n < MAX_ATTEMPTS,
    ensures
        fetch_steps(0, soft_failures(n).push(Attempt::Found(v))) == retries(n).push(
            FetchStep::Finished(Ok(v)),
        ),
{
    let last = seq![Attempt::Found(v)];
    assert(soft_failures(n).push(Attempt::Found(v)) =~= soft_failures(n) + last);
    lemma_soft_failures_retry(0, n, last);
    assert(last.drop_first() =~= Seq::<Attempt>::empty());
    assert(last[0] == Attempt::Found(v));
    assert(fetch_steps(n, last.drop_first()) =~= Seq::<FetchStep>::empty());
    assert(fetch_steps(n, last) =~= seq![FetchStep::Finished(Ok(v))]);
    assert(retries(n) + seq![FetchStep::Finished(Ok(v))] =~= retries(n).push(
        FetchStep::Finished(Ok(v)),
    ));
}

/// As many soft failures as attempts are allowed: the fetcher retries after
/// all but the last, then ends with `NoVersionFound`; whatever comes after,
/// it never asks for another try.
pub proof fn lemma_attempts_exhausted(rest: Seq<Attempt>)
    ensures
        fetch_steps(0, soft_failures(MAX_ATTEMPTS as nat) + rest) == retries(
            (MAX_ATTEMPTS - 1) as nat,
        ) + give_ups(rest.len() + 1),
{
    let n = (MAX_ATTEMPTS - 1) as nat;
    let tail = seq![Attempt::Soft] + rest;
    assert(soft_failures(MAX_ATTEMPTS as nat) + rest =~= soft_failures(n) + tail);
    lemma_soft_failures_retry(0, n, tail);
    assert(tail.drop_first() =~= rest);
    lemma_spent_gives_up(MAX_ATTEMPTS as nat, rest);
    assert(fetch_steps(n, tail) =~= give_ups(rest.len() + 1));
}

/// A hard failure ends the fetch at once with that failure, and spends no
/// attempt.
pub proof fn lemma_hard_failure_ends(soft: nat, e: FetchError, rest: Seq<Attempt>)
    requires
        soft < MAX_ATTEMPTS,
    ensures
        fetch_steps(soft, seq![Attempt::Hard(e)] + rest)[0] == FetchStep::Finished(Err(e)),
        fetch_next(soft, Attempt::Hard(e)).0 == soft,
{
    assert((seq![Attempt::Hard(e)] + rest)[0] == Attempt::Hard(e));
}

/// The bounded retry of the version fetch.
pub struct VersionFetcher {
    /// Attempts so far that came back without a version.
    pub soft_failures: u32,
}

impl VersionFetcher {
    /// A fetcher that has made no attempt.
    pub fn new() -> (f: VersionFetcher)
        ensures
            f.soft_failures == 0,
    {
        VersionFetcher { soft_failures: 0 }
    }

    /// Takes in the outcome of one attempt and says what comes next.
    pub fn record(&mut self, a: Attempt) -> (step: FetchStep)
        ensures
            (final(self).soft_failures as nat, step) == fetch_next(
                old(self).soft_failures as nat,
                a,
            ),
    {
        if self.soft_failures >= MAX_ATTEMPTS {
            return FetchStep::Finished(Err(FetchError::NoVersionFound));
        }
        match a {
            Attempt::Hard(e) => FetchStep::Finished(Err(e)),
            Attempt::Found(v) => FetchStep::Finished(Ok(v)),
            Attempt::Soft => {
                self.soft_failures = self.soft_failures + 1;
                if self.soft_failures >= MAX_ATTEMPTS {
                    FetchStep::Finished(Err(FetchError::NoVersionFound))
                } else {
                    FetchStep::Retry
                }
            },
        }
    }
}

} // verus!
