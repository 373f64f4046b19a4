//! Moving a footprint to the trash, one path at a time.
//!
//! The trash itself is a capability of the caller: a function from a path to
//! success or a reason for failure. Every path of the removal set is
//! attempted, whatever happened to the paths before it, and each attempt
//! leaves one outcome.

use vstd::prelude::*;
use vstd::string::StringExecFns;
use crate::distinct::{distinct_keys, distinct_texts, keep_first, text_key, EntryView};
use crate::text::{
    chars_of, find_end, find_first, find_last, find_word, first_index_of, last_index_of,
    push_signed_decimal, read_integer, same_text, signed_decimal, small_integer_of, trimmed,
};

verus! {

/// Why a path could not be moved to the trash.
#[derive(Debug)]
pub enum FailureReason {
    /// The system's privacy protection denied access to the path.
    PermissionDenied,
    /// The platform reported an error of the given domain and code.
    Platform { domain: String, code: i64 },
    /// The platform reported a failure without an error.
    Unknown,
}

/// The mathematical content of a [`FailureReason`].
pub enum FailureReasonView {
    PermissionDenied,
    Platform { domain: Seq<char>, code: int },
    Unknown,
}

impl View for FailureReason {
    type V = FailureReasonView;

    open spec fn view(&self) -> FailureReasonView {
        match self {
            FailureReason::PermissionDenied => FailureReasonView::PermissionDenied,
            FailureReason::Platform { domain, code } => FailureReasonView::Platform {
                domain: domain@,
                code: *code as int,
            },
            FailureReason::Unknown => FailureReasonView::Unknown,
        }
    }
}

/// The reason that a platform error stands for. Error 513 of the Cocoa
/// domain is how the system reports a denial by its privacy protection.
pub open spec fn reason_for(domain: Seq<char>, code: int) -> FailureReasonView {
    if domain == "NSCocoaErrorDomain"@ && code == 513 {
        FailureReasonView::PermissionDenied
    } else {
        FailureReasonView::Platform { domain, code }
    }
}

/// The text between the last `(` of a message and the first `)` after it.
pub open spec fn bracketed(message: Seq<char>) -> Option<Seq<char>> {
    let open = last_index_of(message, '(', message.len() as int);
    let close = first_index_of(message, ')', open + 1);
    if open < 0 || close >= message.len() {
        None
    } else {
        Some(message.subrange(open + 1, close))
    }
}

/// The error number that the message of a failed script ends in: the
/// integer in its last pair of brackets, blanks around it aside.
pub open spec fn error_number_of(message: Seq<char>) -> Option<int> {
    match bracketed(message) {
        Some(text) => small_integer_of(trimmed(text)),
        None => None,
    }
}

/// The reason that the message of a failed trash script stands for. The
/// numbers -10004 and -5000 are how a script is told of a denial by the
/// system's privacy protection; any other number is handed on as a platform
/// error, and a message without a number gives no reason.
pub open spec fn script_reason(message: Seq<char>) -> FailureReasonView {
    match error_number_of(message) {
        Some(code) => if code == -10004 || code == -5000 {
            FailureReasonView::PermissionDenied
        } else {
            FailureReasonView::Platform { domain: "NSOSStatusErrorDomain"@, code }
        },
        None => FailureReasonView::Unknown,
    }
}

/// The message that describes a reason to a person.
pub open spec fn description_of(reason: FailureReasonView) -> Seq<char> {
    match reason {
        FailureReasonView::PermissionDenied =>
            "Permission not allowed by macOS privacy protection (TCC)"@,
        FailureReasonView::Platform { domain, code } => "Failed with "@ + domain + " ("@
            + signed_decimal(code) + ")"@,
        FailureReasonView::Unknown => "unknown reason"@,
    }
}

impl FailureReason {
    /// Classifies an error that the platform reported by domain and code.
    pub fn from_platform_error(domain: &str, code: i64) -> (r: FailureReason)
        ensures
            r@ == reason_for(domain@, code as int),
    {
        if code == 513 && same_text(domain, "NSCocoaErrorDomain") {
            FailureReason::PermissionDenied
        } else {
            FailureReason::Platform { domain: domain.to_owned(), code }
        }
    }

    /// Classifies the failure of a trash script by the message that the
    /// script left.
    pub fn from_script_error(stderr: &str) -> (r: FailureReason)
        ensures
            r@ == script_reason(stderr@),
    {
        let chars = chars_of(stderr);
        let open = match find_last(&chars, '(') {
            Some(open) => open,
            None => {
                return FailureReason::Unknown;
            },
        };
        let close = find_first(&chars, ')', open + 1);
        if close >= chars.len() {
            return FailureReason::Unknown;
        }
        let ghost text = stderr@.subrange(open + 1, close as int);
        let mut inner: Vec<char> = Vec::new();
        let mut i: usize = open + 1;
        assert(inner@ =~= stderr@.subrange(open + 1, i as int));
        while i < close
            invariant
                open + 1 <= i <= close < chars.len(),
                chars@ == stderr@,
                inner@ == stderr@.subrange(open + 1, i as int),
            decreases close - i,
        {
            inner.push(chars[i]);
            assert(inner@ =~= stderr@.subrange(open + 1, i + 1));
            i += 1;
        }
        assert(inner@ == text);
        let start = find_word(&inner, 0);
        let end = find_end(&inner);
        if start >= end {
            assert(trimmed(text) =~= Seq::empty());
            return FailureReason::Unknown;
        }
        match read_integer(&inner, start, end) {
            Some(code) => {
                if code == -10004 || code == -5000 {
                    FailureReason::PermissionDenied
                } else {
                    FailureReason::Platform { domain: "NSOSStatusErrorDomain".to_owned(), code }
                }
            },
            None => FailureReason::Unknown,
        }
    }

    /// Whether the failure is a denial by policy, which a retry cannot mend.
    pub fn is_permission_denied(&self) -> (r: bool)
        ensures
            r == (self@ is PermissionDenied),
    {
        match self {
            FailureReason::PermissionDenied => true,
            _ => false,
        }
    }

    /// The message that describes this reason to a person.
    pub fn describe(&self) -> (r: String)
        ensures
            r@ == description_of(self@),
    {
        match self {
            FailureReason::PermissionDenied => {
                "Permission not allowed by macOS privacy protection (TCC)".to_owned()
            },
            FailureReason::Platform { domain, code } => {
                let mut out = "Failed with ".to_owned();
                out.append(domain.as_str());
                out.append(" (");
                push_signed_decimal(&mut out, *code);
                out.append(")");
                out
            },
            FailureReason::Unknown => "unknown reason".to_owned(),
        }
    }

    /// A copy of this reason.
    pub fn duplicate(&self) -> (r: FailureReason)
        ensures
            r@ == self@,
    {
        match self {
            FailureReason::PermissionDenied => FailureReason::PermissionDenied,
            FailureReason::Platform { domain, code } => FailureReason::Platform {
                domain: domain.clone(),
                code: *code,
            },
            FailureReason::Unknown => FailureReason::Unknown,
        }
    }
}

impl Clone for FailureReason {
    fn clone(&self) -> (r: FailureReason)
        ensures
            r@ == self@,
    {
        self.duplicate()
    }
}

/// What became of one path of the removal set.
#[derive(Debug)]
pub struct RemovalOutcome {
    pub path: String,
    /// `None` where the path was moved to the trash.
    pub failure: Option<FailureReason>,
}

/// The mathematical content of a [`RemovalOutcome`].
pub struct RemovalOutcomeView {
    pub path: Seq<char>,
    pub failure: Option<FailureReasonView>,
}

/// The content of an optional reason.
pub open spec fn failure_view(failure: Option<FailureReason>) -> Option<FailureReasonView> {
    match failure {
        Some(reason) => Some(reason@),
        None => None,
    }
}

impl View for RemovalOutcome {
    type V = RemovalOutcomeView;

    open spec fn view(&self) -> RemovalOutcomeView {
        RemovalOutcomeView { path: self.path@, failure: failure_view(self.failure) }
    }
}

impl DeepView for RemovalOutcome {
    type V = RemovalOutcomeView;

    open spec fn deep_view(&self) -> RemovalOutcomeView {
        self@
    }
}

/// The content of what the trash answered for one path.
pub open spec fn answer_view(answer: Result<(), FailureReason>) -> Result<(), FailureReasonView> {
    match answer {
        Ok(_) => Ok(()),
        Err(reason) => Err(reason@),
    }
}

/// The outcome that an answer of the trash leaves for a path.
pub open spec fn outcome_of(path: Seq<char>, answer: Result<(), FailureReasonView>)
    -> RemovalOutcomeView {
    RemovalOutcomeView {
        path,
        failure: match answer {
            Ok(_) => None,
            Err(reason) => Some(reason),
        },
    }
}

/// The answer on which the outcome of the path at `i` rests: the one given
/// for it, or an unknown failure where none was given.
pub open spec fn answer_at(answers: Seq<Result<(), FailureReasonView>>, i: int) -> Result<
    (),
    FailureReasonView,
> {
    if 0 <= i < answers.len() {
        answers[i]
    } else {
        Err(FailureReasonView::Unknown)
    }
}

/// One outcome for each path, in the order of the paths.
pub open spec fn outcomes_of(
    paths: Seq<Seq<char>>,
    answers: Seq<Result<(), FailureReasonView>>,
) -> Seq<RemovalOutcomeView> {
    Seq::new(paths.len(), |i: int| outcome_of(paths[i], answer_at(answers, i)))
}

/// The number of outcomes that record a failure.
pub open spec fn failures(outcomes: Seq<RemovalOutcomeView>) -> nat
    decreases outcomes.len(),
{
    if outcomes.len() == 0 {
        0
    } else {
        failures(outcomes.drop_last()) + if outcomes.last().failure is Some {
            1nat
        } else {
            0nat
        }
    }
}

/// The number of outcomes that record a success.
pub open spec fn successes(outcomes: Seq<RemovalOutcomeView>) -> nat
    decreases outcomes.len(),
{
    if outcomes.len() == 0 {
        0
    } else {
        successes(outcomes.drop_last()) + if outcomes.last().failure is None {
            1nat
        } else {
            0nat
        }
    }
}

/// The number of answers that refuse.
pub open spec fn refusals(answers: Seq<Result<(), FailureReasonView>>) -> nat
    decreases answers.len(),
{
    if answers.len() == 0 {
        0
    } else {
        refusals(answers.drop_last()) + if answers.last() is Err {
            1nat
        } else {
            0nat
        }
    }
}

/// The paths of the entries, in order.
pub open spec fn paths_of(entries: Seq<EntryView>) -> Seq<Seq<char>> {
    Seq::new(entries.len(), |i: int| entries[i].0)
}

/// The paths to remove: those of the entries and the application itself,
/// each once, the application last unless an entry already names it.
pub open spec fn removal_set(entries: Seq<EntryView>, app_path: Seq<char>) -> Seq<Seq<char>> {
    keep_first(paths_of(entries).push(app_path), text_key())
}

impl RemovalOutcome {
    /// Records what the trash answered for `path`.
    pub fn new(path: String, answer: Result<(), FailureReason>) -> (r: RemovalOutcome)
        ensures
            r@ == outcome_of(path@, answer_view(answer)),
    {
        match answer {
            Ok(_) => RemovalOutcome { path, failure: None },
            Err(reason) => RemovalOutcome { path, failure: Some(reason) },
        }
    }

    /// Whether the path was moved to the trash.
    pub fn succeeded(&self) -> (r: bool)
        ensures
            r == (self@.failure is None),
    {
        self.failure.is_none()
    }
}

/// The paths that removing a footprint touches: every entry's path and the
/// application's own, none of them twice.
pub fn removal_paths(entries: &Vec<(String, String)>, app_path: &str) -> (r: Vec<String>)
    ensures
        r.deep_view() == removal_set(entries.deep_view(), app_path@),
        distinct_keys(r.deep_view(), text_key()),
{
    let mut all: Vec<String> = Vec::new();
    let mut i: usize = 0;
    assert(all.deep_view() =~= paths_of(entries.deep_view()).take(0));
    while i < entries.len()
        invariant
            i <= entries.len(),
            all.deep_view() == paths_of(entries.deep_view()).take(i as int),
        decreases entries.len() - i,
    {
        let ghost before = all.deep_view();
        all.push(entries[i].0.clone());
        assert(all.deep_view() =~= before.push(entries.deep_view()[i as int].0));
        assert(all.deep_view() =~= paths_of(entries.deep_view()).take(i + 1));
        i += 1;
    }
    let ghost before = all.deep_view();
    all.push(app_path.to_owned());
    assert(all.deep_view() =~= before.push(app_path@));
    assert(paths_of(entries.deep_view()).take(i as int) =~= paths_of(entries.deep_view()));
    distinct_texts(&all)
}

/// Pairs each path with the answer given for it. A path for which no answer
/// was given is recorded as failed for an unknown reason, so that no path is
/// left without an outcome; answers beyond the last path are ignored.
pub fn collect_outcomes(paths: Vec<String>, answers: Vec<Result<(), FailureReason>>) -> (r: Vec<
    RemovalOutcome,
>)
    ensures
        r.deep_view() == outcomes_of(paths.deep_view(), answers_view(answers@)),
        r.len() == paths.len(),
{
    let ghost want = outcomes_of(paths.deep_view(), answers_view(answers@));
    let mut out: Vec<RemovalOutcome> = Vec::new();
    let mut i: usize = 0;
    while i < paths.len()
        invariant
            i <= paths.len(),
            out.len() == i,
            want == outcomes_of(paths.deep_view(), answers_view(answers@)),
            forall|j: int| 0 <= j < i ==> out.deep_view()[j] == want[j],
        decreases paths.len() - i,
    {
        let answer = if i < answers.len() {
            match &answers[i] {
                Ok(_) => Ok(()),
                Err(reason) => Err(reason.duplicate()),
            }
        } else {
            Err(FailureReason::Unknown)
        };
        assert(answer_view(answer) == answer_at(answers_view(answers@), i as int));
        let outcome = RemovalOutcome::new(paths[i].clone(), answer);
        let ghost before = out.deep_view();
        out.push(outcome);
        assert(out.deep_view() =~= before.push(outcome@));
        i += 1;
    }
    assert(out.deep_view() =~= want);
    out
}

/// The content of a list of answers.
pub open spec fn answers_view(answers: Seq<Result<(), FailureReason>>) -> Seq<
    Result<(), FailureReasonView>,
> {
    Seq::new(answers.len(), |i: int| answer_view(answers[i]))
}

/// The trash, asked about `path`, may have left `outcome`.
pub open spec fn attempted<F: Fn(&str) -> Result<(), FailureReason>>(
    trash: F,
    path: Seq<char>,
    outcome: RemovalOutcomeView,
) -> bool {
    exists|p: &str, answer: Result<(), FailureReason>|
        p@ == path && #[trigger] call_ensures(trash, (p,), answer) && outcome == outcome_of(
            path,
            answer_view(answer),
        )
}

/// Moves the footprint to the trash: asks `trash` once for every path of the
/// removal set, in order, and returns one outcome per path. A failure is
/// recorded and the next path is attempted; nothing stops the batch.
pub fn trash_all<F: Fn(&str) -> Result<(), FailureReason>>(
    entries: &Vec<(String, String)>,
    app_path: &str,
    trash: &F,
) -> (r: Vec<RemovalOutcome>)
    requires
        forall|p: &str| call_requires(*trash, (p,)),
    ensures
        r.len() == removal_set(entries.deep_view(), app_path@).len(),
        forall|i: int|
            0 <= i < r.len() ==> attempted(
                *trash,
                removal_set(entries.deep_view(), app_path@)[i],
                #[trigger] r.deep_view()[i],
            ),
        failures(r.deep_view()) + successes(r.deep_view()) == r.len(),
{
    let paths = removal_paths(entries, app_path);
    let ghost set = removal_set(entries.deep_view(), app_path@);
    let mut out: Vec<RemovalOutcome> = Vec::new();
    let mut i: usize = 0;
    while i < paths.len()
        invariant
            i <= paths.len(),
            out.len() == i,
            paths.deep_view() == set,
            forall|p: &str| call_requires(*trash, (p,)),
            forall|j: int| 0 <= j < i ==> attempted(*trash, set[j], #[trigger] out.deep_view()[j]),
        decreases paths.len() - i,
    {
        let path = paths[i].as_str();
        let answer = trash(path);
        let outcome = RemovalOutcome::new(paths[i].clone(), answer);
        let ghost before = out.deep_view();
        proof {
            assert(path@ == set[i as int]);
            assert(call_ensures(*trash, (path,), answer));
            assert(attempted(*trash, set[i as int], outcome@));
        }
        out.push(outcome);
        assert(out.deep_view() =~= before.push(outcome@));
        i += 1;
    }
    proof {
        lemma_every_outcome_counts(out.deep_view());
    }
    out
}

/// The number of failures among the outcomes.
pub fn failure_count(outcomes: &Vec<RemovalOutcome>) -> (r: usize)
    ensures
        r == failures(outcomes.deep_view()),
{
    let ghost all = outcomes.deep_view();
    let mut count: usize = 0;
    let mut i: usize = 0;
    assert(all.take(0) =~= Seq::empty());
    while i < outcomes.len()
        invariant
            i <= outcomes.len(),
            all == outcomes.deep_view(),
            count == failures(all.take(i as int)),
            count <= i,
        decreases outcomes.len() - i,
    {
        proof {
            assert(all.take(i + 1).drop_last() =~= all.take(i as int));
            assert(all.take(i + 1).last() == all[i as int]);
        }
        if !outcomes[i].succeeded() {
            count += 1;
        }
        i += 1;
    }
    assert(all.take(i as int) =~= all);
    count
}

/// Every outcome is either a failure or a success.
pub proof fn lemma_every_outcome_counts(outcomes: Seq<RemovalOutcomeView>)
    ensures
        failures(outcomes) + successes(outcomes) == outcomes.len(),
    decreases outcomes.len(),
{
    if outcomes.len() > 0 {
        lemma_every_outcome_counts(outcomes.drop_last());
    }
}

/// Partial failure: of the outcomes for `n` paths answered by `n` answers of
/// which `k` refuse, there are exactly `n`, `k` of them failures that carry
/// the refusal's reason and `n - k` successes, each standing at the place of
/// its path.
pub proof fn lemma_partial_failure(
    paths: Seq<Seq<char>>,
    answers: Seq<Result<(), FailureReasonView>>,
)
    requires
        answers.len() == paths.len(),
    ensures
        outcomes_of(paths, answers).len() == paths.len(),
        failures(outcomes_of(paths, answers)) == refusals(answers),
        successes(outcomes_of(paths, answers)) == paths.len() - refusals(answers),
        forall|i: int|
            0 <= i < paths.len() ==> (#[trigger] outcomes_of(paths, answers)[i]).path == paths[i],
        forall|i: int|
            0 <= i < paths.len() ==> match answers[i] {
                Ok(_) => (#[trigger] outcomes_of(paths, answers)[i]).failure is None,
                Err(reason) => outcomes_of(paths, answers)[i].failure == Some(reason),
            },
    decreases paths.len(),
{
    let outcomes = outcomes_of(paths, answers);
    lemma_every_outcome_counts(outcomes);
    if paths.len() > 0 {
        lemma_partial_failure(paths.drop_last(), answers.drop_last());
        assert(outcomes.drop_last() =~= outcomes_of(paths.drop_last(), answers.drop_last()));
    }
}

} // verus!
