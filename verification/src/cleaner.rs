//! A cleaning session: find what belongs to an application, then remove it.

use vstd::prelude::*;
use vstd::string::StringExecFns;
use crate::app_data::{AppData, AppDataView};
use crate::app_info::{AppInfo, AppInfoView};
use crate::app_process::{
    asked_with, confirm_and_kill, found_by, prompt_for, signalled, terminated, AppProcess,
    AppProcessView, KillReport,
};
use crate::distinct::{distinct_keys, keep_first, path_key, EntryView};
use crate::log_receipt::receipts_of;
use crate::matcher::IdentityMatcher;
use crate::removal::{
    attempted, failures, removal_set, successes, trash_all, FailureReason, RemovalOutcome,
};
use crate::scanner::{due_at, footprint_of, looked_all, merged, notified, VisitedEntry};
use crate::status::{handed, StatusEmitter, StatusHandler};
use crate::status_event::StatusEventView;
use crate::text::{decimal, push_decimal, push_signed_decimal, signed_decimal};

verus! {

/// A session about one application.
#[derive(Debug)]
pub struct Cleaner {
    pub app_data: AppData,
}

impl View for Cleaner {
    type V = AppDataView;

    open spec fn view(&self) -> AppDataView {
        self.app_data@
    }
}

/// `text` followed by `name` in single quotes.
pub open spec fn naming(text: Seq<char>, name: Seq<char>) -> Seq<char> {
    text + seq!['\''] + name + seq!['\'']
}

/// The message that tells how many processes were found.
pub open spec fn found_message(count: nat) -> Seq<char> {
    "Found process "@ + decimal(count)
}

/// Where there is a status to tell, its handler was handed the status's
/// event with `change` made to it.
pub open spec fn told<H: StatusHandler>(
    status: Option<&StatusEmitter<H>>,
    change: spec_fn(StatusEventView) -> StatusEventView,
) -> bool {
    match status {
        Some(s) => handed(&*s.handler(), change(s.event())),
        None => true,
    }
}

/// The event that opens the search for processes.
pub open spec fn scanning_processes(name: Seq<char>) -> spec_fn(StatusEventView) -> StatusEventView {
    |e: StatusEventView| e.with_message(naming("Scanning running processes for "@, name))
}

/// The event that tells how many processes were found.
pub open spec fn processes_found(count: nat) -> spec_fn(StatusEventView) -> StatusEventView {
    |e: StatusEventView| e.with_message(found_message(count))
}

/// The event that tells that all `total` processes were ended.
pub open spec fn processes_ended(total: nat) -> spec_fn(StatusEventView) -> StatusEventView {
    |e: StatusEventView|
        e.with_stage("Completed"@).with_message("All processes killed"@).with_total(total)
}

/// The event that tells that only `done` of `total` processes were ended.
pub open spec fn processes_left(done: nat, total: nat) -> spec_fn(StatusEventView)
    -> StatusEventView {
    |e: StatusEventView|
        e.with_stage("Failed"@).with_message("Some processes could not be killed"@).with_current(
            done,
        ).with_total(total)
}

/// The event that opens the scan.
pub open spec fn scanning_files(name: Seq<char>) -> spec_fn(StatusEventView) -> StatusEventView {
    |e: StatusEventView| e.with_message(naming("Scanning logs and associated files for "@, name))
}

/// The event that opens one of the two searches of a scan.
pub open spec fn search_started(what: Seq<char>) -> spec_fn(StatusEventView) -> StatusEventView {
    |e: StatusEventView| e.with_stage("started"@).with_message(what)
}

/// The event that closes the search for receipts, of which `total` were
/// found.
pub open spec fn receipts_searched(total: nat) -> spec_fn(StatusEventView) -> StatusEventView {
    |e: StatusEventView|
        e.with_stage("completed"@).with_total(total).with_message("BOM logs scan completed"@)
}

/// The event that closes the search for the footprint.
pub open spec fn footprint_searched() -> spec_fn(StatusEventView) -> StatusEventView {
    |e: StatusEventView|
        e.with_stage("completed"@).with_message("Associated files scan completed"@)
}

/// The event that tells how many entries the search has looked at.
pub open spec fn searching(current: nat) -> spec_fn(StatusEventView) -> StatusEventView {
    |e: StatusEventView| e.with_stage("Searching"@).with_current(current)
}

fn name_in_quotes(text: &str, name: &str) -> (r: String)
    ensures
        r@ == naming(text@, name@),
{
    proof {
        reveal_strlit("'");
    }
    let mut out = text.to_owned();
    out.append("'");
    out.append(name);
    out.append("'");
    assert(out@ =~= naming(text@, name@));
    out
}

fn count_of_processes(count: usize) -> (r: String)
    ensures
        r@ == found_message(count as nat),
{
    let mut out = "Found process ".to_owned();
    push_decimal(&mut out, count as u64);
    out
}

/// One line for each of the first `n` processes: the id and the command.
pub open spec fn process_lines(processes: Seq<AppProcessView>, n: int) -> Seq<char>
    decreases n,
{
    if n <= 0 {
        Seq::empty()
    } else {
        process_lines(processes, n - 1) + "PID "@ + signed_decimal(processes[n - 1].pid) + ": "@
            + processes[n - 1].command + "\n"@
    }
}

/// One line for each of the first `n` receipts: its path.
pub open spec fn receipt_lines(receipts: Seq<Seq<char>>, n: int) -> Seq<char>
    decreases n,
{
    if n <= 0 {
        Seq::empty()
    } else {
        receipt_lines(receipts, n - 1) + receipts[n - 1] + "\n"@
    }
}

/// One line for each of the first `n` entries: the label, an arrow and the
/// path.
pub open spec fn entry_lines(entries: Seq<EntryView>, n: int) -> Seq<char>
    decreases n,
{
    if n <= 0 {
        Seq::empty()
    } else {
        entry_lines(entries, n - 1) + entries[n - 1].1 + " -> "@ + entries[n - 1].0 + "\n"@
    }
}

/// The summary of a session: the identity, the running processes, the
/// receipts, and the footprint with the application itself at its end.
pub open spec fn summary_of(data: AppDataView) -> Seq<char> {
    "App Name: "@ + data.app.name + "\nBundle ID: "@ + data.app.bundle_id + "\nBundle Name: "@
        + data.app.bundle_name + "\n\nRunning processes:\n"@ + process_lines(
        data.processes,
        data.processes.len() as int,
    ) + "\nLog BOM files:\n"@ + receipt_lines(data.receipts, data.receipts.len() as int)
        + "\nAssociated files:\n"@ + entry_lines(data.footprint, data.footprint.len() as int)
        + data.app.name + " -> "@ + data.app.path + "\n"@
}

/// The per-root matches that `search` may have answered with.
pub open spec fn searched_by<S: FnOnce(&IdentityMatcher) -> Vec<Vec<(String, String)>>>(
    search: S,
    app: AppInfoView,
    per_root: Vec<Vec<(String, String)>>,
) -> bool {
    exists|matcher: &IdentityMatcher|
        matcher.identity() == app && #[trigger] call_ensures(search, (matcher,), per_root)
}

impl Cleaner {
    /// A session about no application yet.
    pub fn new() -> (r: Cleaner)
        ensures
            r@ == AppDataView::fresh(AppInfoView::empty()),
    {
        Cleaner { app_data: AppData::default() }
    }

    /// Opens a session about `app`: lists the running processes once, keeps
    /// those of the application and, if there are any, asks the user
    /// whether to end them and does as the user says.
    ///
    /// A listing that fails ends the session before it began: with half a
    /// list nobody could say that nothing is running. Progress is told to
    /// `status` along the way.
    pub fn new_app<
        H: StatusHandler,
        L: FnOnce() -> Result<Vec<AppProcess>, String>,
        C: FnOnce(&str) -> bool,
        T: Fn(i32) -> Result<(), String>,
    >(
        app: AppInfo,
        status: Option<&StatusEmitter<H>>,
        list: L,
        confirm: C,
        terminate: &T,
    ) -> (r: Result<(Cleaner, KillReport), String>)
        requires
            call_requires(list, ()),
            forall|p: &str| p@ == prompt_for(app@.name) ==> call_requires(confirm, (p,)),
            forall|pid: i32| pid > 0 ==> call_requires(*terminate, (pid,)),
        ensures
            told(status, scanning_processes(app@.name)),
            match r {
                Ok((cleaner, report)) => {
                    &&& found_by(list, app@, cleaner@.processes, None)
                    &&& told(status, processes_found(cleaner@.processes.len()))
                    &&& report.confirmed ==> {
                        let done = terminated(report.terminations.deep_view());
                        let total = cleaner@.processes.len();
                        if done == total {
                            told(status, processes_ended(total))
                        } else {
                            told(status, processes_left(done, total))
                        }
                    }
                    &&& cleaner@ == (AppDataView {
                        processes: cleaner@.processes,
                        ..AppDataView::fresh(app@)
                    })
                    &&& report.asked == (cleaner@.processes.len() > 0)
                    &&& report.asked ==> asked_with(
                        confirm,
                        prompt_for(app@.name),
                        report.confirmed,
                    )
                    &&& !report.asked ==> !report.confirmed
                    &&& !report.confirmed ==> report.terminations.len() == 0
                    &&& report.confirmed ==> report.terminations.len()
                        == cleaner@.processes.len()
                    &&& report.confirmed ==> forall|i: int|
                        0 <= i < cleaner@.processes.len() ==> signalled(
                            *terminate,
                            cleaner.app_data.app_process[i].pid,
                            #[trigger] report.terminations.deep_view()[i],
                        )
                },
                Err(reason) => found_by(list, app@, Seq::empty(), Some(reason)),
            },
    {
        let mut app_data = AppData::new(app);
        match status {
            Some(s) => {
                let message = name_in_quotes(
                    "Scanning running processes for ",
                    app_data.app.name.as_str(),
                );
                s.with_message(message.as_str()).emit();
            },
            None => {},
        }
        let (found, failure) = AppProcess::find(&app_data.app, list);
        match failure {
            Some(reason) => {
                assert(found.deep_view() =~= Seq::empty());
                return Err(reason);
            },
            None => {},
        }
        app_data.app_process = found;
        let total_process = app_data.app_process.len();
        match status {
            Some(s) => {
                let message = count_of_processes(total_process);
                s.with_message(message.as_str()).emit();
            },
            None => {},
        }
        let report = confirm_and_kill(
            app_data.app.name.as_str(),
            &app_data.app_process,
            confirm,
            terminate,
        );
        if report.confirmed {
            match status {
                Some(s) => {
                    let done = report.terminated();
                    if done == total_process {
                        s.with_stage("Completed").with_message("All processes killed").with_total(
                            total_process,
                        ).emit();
                    } else {
                        s.with_stage("Failed").with_message(
                            "Some processes could not be killed",
                        ).with_current(done).with_total(total_process).emit();
                    }
                },
                None => {},
            }
        }
        let cleaner = Cleaner { app_data };
        Ok((cleaner, report))
    }

    /// Finds the receipts and the footprint of the session's application.
    ///
    /// `receipts` lists what each receipt directory holds, or `None` for a
    /// directory that does not exist; `visited` lists what was met under
    /// each search root. Progress is told to `status`: the start and the end
    /// of both searches, and the running count while the footprint is
    /// searched.
    pub fn scan_app_data<H: StatusHandler>(
        &mut self,
        status: Option<&StatusEmitter<H>>,
        receipts: &Vec<Option<Vec<String>>>,
        visited: &Vec<Vec<VisitedEntry>>,
    )
        ensures
            final(self)@ == (AppDataView {
                receipts: receipts_of(receipts.deep_view(), old(self)@.app),
                footprint: footprint_of(visited.deep_view(), old(self)@.app),
                ..old(self)@
            }),
            distinct_keys(final(self)@.footprint, path_key()),
            told(status, scanning_files(old(self)@.app.name)),
            told(status, search_started("Finding BOM logs..."@)),
            told(status, receipts_searched(final(self)@.receipts.len())),
            told(status, search_started("Finding associated files..."@)),
            told(status, footprint_searched()),
            forall|n: int|
                0 < n <= looked_all(visited.deep_view()).len() && n <= usize::MAX && due_at(
                    n as nat,
                ) ==> told(status, #[trigger] searching(n as nat)),
    {
        match status {
            Some(s) => {
                let message = name_in_quotes(
                    "Scanning logs and associated files for ",
                    self.app_data.app.name.as_str(),
                );
                s.with_message(message.as_str()).emit();
                s.with_stage("started").with_message("Finding BOM logs...").emit();
            },
            None => {},
        }
        self.app_data.find_log_bom(receipts);
        let total_bom_file = self.app_data.log.bom_file.len();
        match status {
            Some(s) => {
                s.with_stage("completed").with_total(total_bom_file).with_message(
                    "BOM logs scan completed",
                ).emit();
                s.with_stage("started").with_message("Finding associated files...").emit();
            },
            None => {},
        }
        let progress = |current: usize, path: &str|
            ensures
                told(status, searching(current as nat)),
            {
                Cleaner::report_searching(status, current);
            };
        self.app_data.find_associate_files(visited, &progress);
        assert forall|n: int|
            0 < n <= looked_all(visited.deep_view()).len() && n <= usize::MAX && due_at(
                n as nat,
            ) implies told(status, #[trigger] searching(n as nat)) by {
            let path = looked_all(visited.deep_view())[n - 1];
            assert(notified(progress, n as nat, path));
        }
        match status {
            Some(s) => {
                s.with_stage("completed").with_message("Associated files scan completed").emit();
            },
            None => {},
        }
    }

    /// Tells `status` that the search has looked at `current` entries.
    pub fn report_searching<H: StatusHandler>(status: Option<&StatusEmitter<H>>, current: usize)
        ensures
            told(status, searching(current as nat)),
    {
        match status {
            Some(s) => {
                s.with_stage("Searching").with_current(current).emit();
            },
            None => {},
        }
    }

    /// Finds the receipts and the footprint of the session's application,
    /// with the search roots searched by the caller.
    ///
    /// `search` is handed the matcher of the application and answers with
    /// the matches of each root; it may search the roots side by side. The
    /// answers are merged, and each path stays once. `receipts` and `status`
    /// are as for [`Cleaner::scan_app_data`].
    pub fn scan_app_data_with<
        H: StatusHandler,
        S: FnOnce(&IdentityMatcher) -> Vec<Vec<(String, String)>>,
    >(&mut self, status: Option<&StatusEmitter<H>>, receipts: &Vec<Option<Vec<String>>>, search: S)
        requires
            forall|matcher: &IdentityMatcher|
                matcher.identity() == old(self)@.app ==> call_requires(search, (matcher,)),
        ensures
            exists|per_root: Vec<Vec<(String, String)>>|
                #[trigger] searched_by(search, old(self)@.app, per_root) && final(self)@ == (
                AppDataView {
                    receipts: receipts_of(receipts.deep_view(), old(self)@.app),
                    footprint: keep_first(merged(per_root.deep_view()), path_key()),
                    ..old(self)@
                }),
            distinct_keys(final(self)@.footprint, path_key()),
            told(status, scanning_files(old(self)@.app.name)),
            told(status, search_started("Finding BOM logs..."@)),
            told(status, receipts_searched(final(self)@.receipts.len())),
            told(status, search_started("Finding associated files..."@)),
            told(status, footprint_searched()),
    {
        match status {
            Some(s) => {
                let message = name_in_quotes(
                    "Scanning logs and associated files for ",
                    self.app_data.app.name.as_str(),
                );
                s.with_message(message.as_str()).emit();
                s.with_stage("started").with_message("Finding BOM logs...").emit();
            },
            None => {},
        }
        self.app_data.find_log_bom(receipts);
        let total_bom_file = self.app_data.log.bom_file.len();
        match status {
            Some(s) => {
                s.with_stage("completed").with_total(total_bom_file).with_message(
                    "BOM logs scan completed",
                ).emit();
                s.with_stage("started").with_message("Finding associated files...").emit();
            },
            None => {},
        }
        let matcher = IdentityMatcher::new(&self.app_data.app);
        let per_root = search(&matcher);
        assert(searched_by(search, old(self)@.app, per_root));
        self.app_data.merge_associate_files(&per_root);
        match status {
            Some(s) => {
                s.with_stage("completed").with_message("Associated files scan completed").emit();
            },
            None => {},
        }
    }

    /// The summary of the session as text, for a terminal.
    pub fn summary(&self) -> (r: String)
        ensures
            r@ == summary_of(self@),
    {
        let data = &self.app_data;
        let mut out = "App Name: ".to_owned();
        out.append(data.app.name.as_str());
        out.append("\nBundle ID: ");
        out.append(data.app.bundle_id.as_str());
        out.append("\nBundle Name: ");
        out.append(data.app.bundle_name.as_str());
        out.append("\n\nRunning processes:\n");
        let ghost head = out@;
        let mut i: usize = 0;
        assert(out@ =~= head + process_lines(self@.processes, 0));
        while i < data.app_process.len()
            invariant
                i <= data.app_process.len(),
                data == &self.app_data,
                out@ == head + process_lines(self@.processes, i as int),
            decreases data.app_process.len() - i,
        {
            let ghost before = out@;
            let process = &data.app_process[i];
            out.append("PID ");
            push_signed_decimal(&mut out, process.pid as i64);
            out.append(": ");
            out.append(process.command.as_str());
            out.append("\n");
            assert(self@.processes[i as int] == process@);
            assert(out@ =~= head + process_lines(self@.processes, i + 1));
            i += 1;
        }
        out.append("\nLog BOM files:\n");
        let ghost head = out@;
        let mut j: usize = 0;
        assert(out@ =~= head + receipt_lines(self@.receipts, 0));
        while j < data.log.bom_file.len()
            invariant
                j <= data.log.bom_file.len(),
                data == &self.app_data,
                out@ == head + receipt_lines(self@.receipts, j as int),
            decreases data.log.bom_file.len() - j,
        {
            out.append(data.log.bom_file[j].as_str());
            out.append("\n");
            assert(self@.receipts[j as int] == data.log.bom_file[j as int]@);
            assert(out@ =~= head + receipt_lines(self@.receipts, j + 1));
            j += 1;
        }
        out.append("\nAssociated files:\n");
        let ghost head = out@;
        let mut k: usize = 0;
        assert(out@ =~= head + entry_lines(self@.footprint, 0));
        while k < data.associate_files.len()
            invariant
                k <= data.associate_files.len(),
                data == &self.app_data,
                out@ == head + entry_lines(self@.footprint, k as int),
            decreases data.associate_files.len() - k,
        {
            let entry = &data.associate_files[k];
            out.append(entry.1.as_str());
            out.append(" -> ");
            out.append(entry.0.as_str());
            out.append("\n");
            assert(self@.footprint[k as int] == (entry.0@, entry.1@));
            assert(out@ =~= head + entry_lines(self@.footprint, k + 1));
            k += 1;
        }
        out.append(data.app.name.as_str());
        out.append(" -> ");
        out.append(data.app.path.as_str());
        out.append("\n");
        assert(out@ =~= summary_of(self@));
        out
    }

    /// Moves the footprint and the application itself to the trash, through
    /// `trash`, and returns what became of each path.
    pub fn trash_all<F: Fn(&str) -> Result<(), FailureReason>>(&self, trash: &F) -> (r: Vec<
        RemovalOutcome,
    >)
        requires
            forall|p: &str| call_requires(*trash, (p,)),
        ensures
            r.len() == removal_set(self@.footprint, self@.app.path).len(),
            forall|i: int|
                0 <= i < r.len() ==> attempted(
                    *trash,
                    removal_set(self@.footprint, self@.app.path)[i],
                    #[trigger] r.deep_view()[i],
                ),
            failures(r.deep_view()) + successes(r.deep_view()) == r.len(),
    {
        trash_all(&self.app_data.associate_files, self.app_data.app.path.as_str(), trash)
    }

    /// Abandons the session.
    pub fn reset(&mut self)
        ensures
            final(self)@ == AppDataView::fresh(AppInfoView::empty()),
    {
        self.app_data.reset();
    }

    /// A copy of this session.
    pub fn duplicate(&self) -> (r: Cleaner)
        ensures
            r@ == self@,
    {
        Cleaner { app_data: self.app_data.duplicate() }
    }
}

impl Clone for Cleaner {
    fn clone(&self) -> (r: Cleaner)
        ensures
            r@ == self@,
    {
        self.duplicate()
    }
}

impl Default for Cleaner {
    fn default() -> (r: Cleaner)
        ensures
            r@ == AppDataView::fresh(AppInfoView::empty()),
    {
        Cleaner::new()
    }
}

} // verus!
