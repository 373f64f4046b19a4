//! The running processes of an application, and ending them.
//!
//! Listing processes, asking the user and sending the signal are
//! capabilities of the caller. What is decided here: which listed processes
//! belong to the application, whether the user is asked at all, and which
//! process ids may be signalled.

use vstd::prelude::*;
use vstd::string::{StrSliceExecFns, StringExecFns};
use crate::app_info::{AppInfo, AppInfoView};
use crate::matcher::{matches_spec, IdentityMatcher};
use crate::text::{
    chars_of, find_blank, find_end, find_word, number_of, read_number, skip_blanks, skip_word,
    trim_end,
};

verus! {

/// A running process: its id and the command line it was started with.
#[derive(Debug)]
pub struct AppProcess {
    pub pid: i32,
    pub command: String,
}

/// The mathematical content of an [`AppProcess`].
pub struct AppProcessView {
    pub pid: int,
    pub command: Seq<char>,
}

impl View for AppProcess {
    type V = AppProcessView;

    open spec fn view(&self) -> AppProcessView {
        AppProcessView { pid: self.pid as int, command: self.command@ }
    }
}

impl DeepView for AppProcess {
    type V = AppProcessView;

    open spec fn deep_view(&self) -> AppProcessView {
        self@
    }
}

/// Whether a listed process belongs to the application: it has a process id
/// of its own, and its command line matches the identity.
pub open spec fn owned(process: AppProcessView, identity: AppInfoView) -> bool {
    process.pid > 0 && matches_spec(process.command, identity)
}

/// The processes of the listing that belong to the application, in the
/// order of the listing.
pub open spec fn owned_by(listing: Seq<AppProcessView>, identity: AppInfoView) -> Seq<
    AppProcessView,
>
    decreases listing.len(),
{
    if listing.len() == 0 {
        Seq::empty()
    } else if owned(listing.last(), identity) {
        owned_by(listing.drop_last(), identity).push(listing.last())
    } else {
        owned_by(listing.drop_last(), identity)
    }
}

/// The process that one line of a process listing names. A line holds the
/// process id as a decimal numeral, then blanks, then the command line;
/// blanks before the id and after the command are passed over. A line that
/// does not start with the id of a process names none.
pub open spec fn listed_process(line: Seq<char>) -> Option<AppProcessView> {
    let start = skip_blanks(line, 0);
    let stop = skip_word(line, start);
    let from = skip_blanks(line, stop);
    let to = trim_end(line, line.len() as int);
    match number_of(line.subrange(start, stop)) {
        Some(pid) => if 0 < pid <= i32::MAX {
            Some(
                AppProcessView {
                    pid: pid as int,
                    command: if from < to {
                        line.subrange(from, to)
                    } else {
                        Seq::empty()
                    },
                },
            )
        } else {
            None
        },
        None => None,
    }
}

/// `found` and `failure` are what a search through `list` may have come to:
/// the owned processes of a listing that `list` gave, or nothing and the
/// failure that `list` reported.
pub open spec fn found_by<L: FnOnce() -> Result<Vec<AppProcess>, String>>(
    list: L,
    identity: AppInfoView,
    found: Seq<AppProcessView>,
    failure: Option<String>,
) -> bool {
    exists|answer: Result<Vec<AppProcess>, String>| #[trigger]
        call_ensures(list, (), answer) && match answer {
            Ok(listing) => found == owned_by(listing.deep_view(), identity) && failure is None,
            Err(reason) => found.len() == 0 && failure == Some(reason),
        }
}

/// What became of one process that was to be ended.
#[derive(Debug)]
pub struct Termination {
    pub pid: i32,
    /// `None` where the signal was sent.
    pub failure: Option<String>,
}

/// The mathematical content of a [`Termination`].
pub struct TerminationView {
    pub pid: int,
    pub failure: Option<Seq<char>>,
}

impl View for Termination {
    type V = TerminationView;

    open spec fn view(&self) -> TerminationView {
        TerminationView {
            pid: self.pid as int,
            failure: match self.failure {
                Some(reason) => Some(reason@),
                None => None,
            },
        }
    }
}

impl DeepView for Termination {
    type V = TerminationView;

    open spec fn deep_view(&self) -> TerminationView {
        self@
    }
}

/// The failure that is recorded for an id that names no single process.
pub open spec fn not_a_process() -> Seq<char> {
    "not a process id"@
}

/// What `terminate` answered, as the failure of a termination.
pub open spec fn failure_of(answer: Result<(), String>) -> Option<Seq<char>> {
    match answer {
        Ok(_) => None,
        Err(reason) => Some(reason@),
    }
}

/// `termination` is what signalling `pid` through `terminate` may have left.
/// An id that is not positive names no single process: it is never handed
/// to `terminate`.
pub open spec fn signalled<T: Fn(i32) -> Result<(), String>>(
    terminate: T,
    pid: i32,
    termination: TerminationView,
) -> bool {
    &&& termination.pid == pid
    &&& if pid > 0 {
        exists|answer: Result<(), String>| #[trigger]
            call_ensures(terminate, (pid,), answer) && termination.failure == failure_of(answer)
    } else {
        termination.failure == Some(not_a_process())
    }
}

/// The number of terminations that sent their signal.
pub open spec fn terminated(terminations: Seq<TerminationView>) -> nat
    decreases terminations.len(),
{
    if terminations.len() == 0 {
        0
    } else {
        terminated(terminations.drop_last()) + if terminations.last().failure is None {
            1nat
        } else {
            0nat
        }
    }
}

impl AppProcess {
    /// A copy of this process record.
    pub fn duplicate(&self) -> (r: AppProcess)
        ensures
            r@ == self@,
    {
        AppProcess { pid: self.pid, command: self.command.clone() }
    }

    /// Reads one line of a process listing.
    pub fn from_listing_line(line: &str) -> (r: Option<AppProcess>)
        ensures
            r.deep_view() == listed_process(line@),
    {
        let chars = chars_of(line);
        let start = find_word(&chars, 0);
        let stop = find_blank(&chars, start);
        let from = find_word(&chars, stop);
        let to = find_end(&chars);
        match read_number(&chars, start, stop, 0x7fff_ffff) {
            Some(n) => {
                if n == 0 {
                    None
                } else {
                    let command = if from < to {
                        line.substring_char(from, to).to_owned()
                    } else {
                        String::new()
                    };
                    Some(AppProcess { pid: n as i32, command })
                }
            },
            None => None,
        }
    }

    /// The processes of `listing` that belong to the application: those
    /// whose command line matches its identity.
    pub fn find_app_processes(app: &AppInfo, listing: &Vec<AppProcess>) -> (r: Vec<AppProcess>)
        ensures
            r.deep_view() == owned_by(listing.deep_view(), app@),
    {
        let matcher = IdentityMatcher::new(app);
        let ghost all = listing.deep_view();
        let mut out: Vec<AppProcess> = Vec::new();
        let mut i: usize = 0;
        assert(all.take(0) =~= Seq::empty());
        assert(out.deep_view() =~= Seq::empty());
        while i < listing.len()
            invariant
                i <= listing.len(),
                all == listing.deep_view(),
                matcher.identity() == app@,
                out.deep_view() == owned_by(all.take(i as int), app@),
            decreases listing.len() - i,
        {
            proof {
                assert(all.take(i + 1).drop_last() =~= all.take(i as int));
                assert(all.take(i + 1).last() == listing[i as int]@);
            }
            let process = &listing[i];
            if process.pid > 0 && matcher.matches(process.command.as_str()) {
                let ghost before = out.deep_view();
                out.push(process.duplicate());
                assert(out.deep_view() =~= before.push(process@));
            }
            i += 1;
        }
        assert(all.take(i as int) =~= all);
        out
    }

    /// Finds the running processes of the application: asks `list` once for
    /// the running processes and keeps those that belong to the
    /// application. Where the listing fails, nothing is found and the
    /// failure is handed on; it is not tried again, for half a list would
    /// not show that nothing is running.
    pub fn find<L: FnOnce() -> Result<Vec<AppProcess>, String>>(app: &AppInfo, list: L) -> (r: (
        Vec<AppProcess>,
        Option<String>,
    ))
        requires
            call_requires(list, ()),
        ensures
            found_by(list, app@, r.0.deep_view(), r.1),
    {
        let answer = list();
        match answer {
            Ok(listing) => {
                let found = AppProcess::find_app_processes(app, &listing);
                assert(call_ensures(list, (), Ok::<Vec<AppProcess>, String>(listing)));
                (found, None)
            },
            Err(reason) => {
                let found: Vec<AppProcess> = Vec::new();
                assert(found.deep_view() =~= Seq::empty());
                assert(call_ensures(list, (), Err::<Vec<AppProcess>, String>(reason)));
                (found, Some(reason))
            },
        }
    }

    /// Sends the termination signal to every process, one signal per
    /// process, and records for each what became of it. A failure does not
    /// stop the others from being signalled.
    pub fn kill_app_processes<T: Fn(i32) -> Result<(), String>>(
        processes: &Vec<AppProcess>,
        terminate: &T,
    ) -> (r: Vec<Termination>)
        requires
            forall|pid: i32| pid > 0 ==> call_requires(*terminate, (pid,)),
        ensures
            r.len() == processes.len(),
            forall|i: int|
                0 <= i < r.len() ==> signalled(
                    *terminate,
                    processes[i].pid,
                    #[trigger] r.deep_view()[i],
                ),
    {
        let mut out: Vec<Termination> = Vec::new();
        let mut i: usize = 0;
        while i < processes.len()
            invariant
                i <= processes.len(),
                out.len() == i,
                forall|pid: i32| pid > 0 ==> call_requires(*terminate, (pid,)),
                forall|j: int|
                    0 <= j < i ==> signalled(
                        *terminate,
                        processes[j].pid,
                        #[trigger] out.deep_view()[j],
                    ),
            decreases processes.len() - i,
        {
            let pid = processes[i].pid;
            let termination = if pid > 0 {
                let answer = terminate(pid);
                let termination = match answer {
                    Ok(_) => Termination { pid, failure: None },
                    Err(reason) => Termination { pid, failure: Some(reason) },
                };
                assert(call_ensures(*terminate, (pid,), answer));
                assert(termination@.failure == failure_of(answer));
                termination
            } else {
                Termination { pid, failure: Some("not a process id".to_owned()) }
            };
            assert(signalled(*terminate, pid, termination@));
            let ghost before = out.deep_view();
            out.push(termination);
            assert(out.deep_view() =~= before.push(termination@));
            i += 1;
        }
        out
    }
}

impl Clone for AppProcess {
    fn clone(&self) -> (r: AppProcess)
        ensures
            r@ == self@,
    {
        self.duplicate()
    }
}

/// The question put to the user before the processes of `app_name` are
/// ended.
pub open spec fn prompt_for(app_name: Seq<char>) -> Seq<char> {
    "The app '"@ + app_name
        + "' is still running.\nDo you want to kill its running process?\nBe careful to save your work first!"@
}

/// The question put to the user before the processes of `app_name` are
/// ended.
pub fn confirmation_prompt(app_name: &str) -> (r: String)
    ensures
        r@ == prompt_for(app_name@),
{
    let mut out = "The app '".to_owned();
    out.append(app_name);
    out.append(
        "' is still running.\nDo you want to kill its running process?\nBe careful to save your work first!",
    );
    out
}

/// What asking and ending came to.
#[derive(Debug)]
pub struct KillReport {
    /// Whether the user was asked.
    pub asked: bool,
    /// Whether the user agreed.
    pub confirmed: bool,
    /// One record per process, when the user agreed; none otherwise.
    pub terminations: Vec<Termination>,
}

impl KillReport {
    /// The number of processes that were sent the signal.
    pub fn terminated(&self) -> (r: usize)
        ensures
            r == terminated(self.terminations.deep_view()),
    {
        let ghost all = self.terminations.deep_view();
        let mut count: usize = 0;
        let mut i: usize = 0;
        assert(all.take(0) =~= Seq::empty());
        while i < self.terminations.len()
            invariant
                i <= self.terminations.len(),
                all == self.terminations.deep_view(),
                count == terminated(all.take(i as int)),
                count <= i,
            decreases self.terminations.len() - i,
        {
            proof {
                assert(all.take(i + 1).drop_last() =~= all.take(i as int));
                assert(all.take(i + 1).last() == all[i as int]);
            }
            if self.terminations[i].failure.is_none() {
                count += 1;
            }
            i += 1;
        }
        assert(all.take(i as int) =~= all);
        count
    }
}

/// `confirm`, asked the question `prompt`, may have answered `answer`.
pub open spec fn asked_with<C: FnOnce(&str) -> bool>(
    confirm: C,
    prompt: Seq<char>,
    answer: bool,
) -> bool {
    exists|p: &str| p@ == prompt && #[trigger] call_ensures(confirm, (p,), answer)
}

/// Ends the running processes of an application if the user agrees.
///
/// With no process there is nothing to decide: the user is not asked and
/// nothing is signalled. Otherwise the user is asked once. On a yes every
/// process is signalled once; on a no none is, and the processes stay
/// running, which is the user's choice and no error.
pub fn confirm_and_kill<C: FnOnce(&str) -> bool, T: Fn(i32) -> Result<(), String>>(
    app_name: &str,
    processes: &Vec<AppProcess>,
    confirm: C,
    terminate: &T,
) -> (r: KillReport)
    requires
        processes.len() > 0 ==> forall|p: &str|
            p@ == prompt_for(app_name@) ==> call_requires(confirm, (p,)),
        processes.len() > 0 ==> forall|pid: i32| pid > 0 ==> call_requires(*terminate, (pid,)),
    ensures
        r.asked == (processes.len() > 0),
        r.asked ==> asked_with(confirm, prompt_for(app_name@), r.confirmed),
        !r.asked ==> !r.confirmed,
        !r.confirmed ==> r.terminations.len() == 0,
        r.confirmed ==> r.terminations.len() == processes.len(),
        r.confirmed ==> forall|i: int|
            0 <= i < processes.len() ==> signalled(
                *terminate,
                processes[i].pid,
                #[trigger] r.terminations.deep_view()[i],
            ),
{
    if processes.len() == 0 {
        return KillReport { asked: false, confirmed: false, terminations: Vec::new() };
    }
    let prompt = confirmation_prompt(app_name);
    let question = prompt.as_str();
    let confirmed = confirm(question);
    assert(call_ensures(confirm, (question,), confirmed));
    if confirmed {
        let terminations = AppProcess::kill_app_processes(processes, terminate);
        KillReport { asked: true, confirmed: true, terminations }
    } else {
        KillReport { asked: true, confirmed: false, terminations: Vec::new() }
    }
}

} // verus!
