//! Everything found for one application during a session.

use vstd::prelude::*;
use crate::app_info::{AppInfo, AppInfoView, IdentityError};
use crate::app_info::identity_from_plist;
use crate::app_process::{owned_by, AppProcess, AppProcessView};
use crate::distinct::{distinct_keys, keep_first, path_key, EntryView};
use crate::log_receipt::{receipts_of, LogReceipt};
use crate::scanner::{
    due_at, footprint_of, kept_informed, looked_all, merge, merged, scan, VisitedEntry,
};

verus! {

/// What a session knows of its application: the identity, the running
/// processes, the receipts and the footprint. The three collections are
/// filled in this order and rebuilt from nothing by every scan.
#[derive(Debug)]
pub struct AppData {
    pub app: AppInfo,
    pub app_process: Vec<AppProcess>,
    pub log: LogReceipt,
    pub associate_files: Vec<(String, String)>,
}

/// The mathematical content of an [`AppData`].
pub struct AppDataView {
    pub app: AppInfoView,
    pub processes: Seq<AppProcessView>,
    pub receipts: Seq<Seq<char>>,
    pub footprint: Seq<EntryView>,
}

impl View for AppData {
    type V = AppDataView;

    open spec fn view(&self) -> AppDataView {
        AppDataView {
            app: self.app@,
            processes: self.app_process.deep_view(),
            receipts: self.log@,
            footprint: self.associate_files.deep_view(),
        }
    }
}

impl AppDataView {
    /// The data of a session about `app` in which nothing was found yet.
    pub open spec fn fresh(app: AppInfoView) -> AppDataView {
        AppDataView {
            app,
            processes: Seq::empty(),
            receipts: Seq::empty(),
            footprint: Seq::empty(),
        }
    }

    /// What the session shows: the footprint, each entry numbered from zero,
    /// and last the application itself under its display name.
    pub open spec fn shown(self) -> Seq<(nat, EntryView)> {
        Seq::new(
            self.footprint.len() + 1,
            |i: int|
                if i < self.footprint.len() {
                    (i as nat, self.footprint[i])
                } else {
                    (i as nat, (self.app.path, self.app.name))
                },
        )
    }
}

/// The content of a numbered list of entries.
pub open spec fn numbered_view(entries: Seq<(usize, (String, String))>) -> Seq<(nat, EntryView)> {
    Seq::new(entries.len(), |i: int| (entries[i].0 as nat, (entries[i].1.0@, entries[i].1.1@)))
}

impl AppData {
    /// The data of a session about `app`: nothing is found yet.
    pub fn new(app: AppInfo) -> (r: AppData)
        ensures
            r@ == AppDataView::fresh(app@),
    {
        let app_process: Vec<AppProcess> = Vec::new();
        let associate_files: Vec<(String, String)> = Vec::new();
        assert(app_process.deep_view() =~= Seq::empty());
        assert(associate_files.deep_view() =~= Seq::empty());
        AppData { app, app_process, log: LogReceipt::default(), associate_files }
    }

    /// Starts a session from the application's path and the bytes of its
    /// metadata file. Without an identity there is no session.
    pub fn from_plist(app_path: &str, plist: &[u8]) -> (r: Result<AppData, IdentityError>)
        ensures
            match r {
                Ok(data) => identity_from_plist(app_path@, plist@) == Ok::<
                    AppInfoView,
                    IdentityError,
                >(data@.app) && data@ == AppDataView::fresh(data@.app),
                Err(e) => identity_from_plist(app_path@, plist@) == Err::<
                    AppInfoView,
                    IdentityError,
                >(e),
            },
    {
        match AppInfo::from_plist(app_path, plist) {
            Ok(app) => Ok(AppData::new(app)),
            Err(e) => Err(e),
        }
    }

    /// Finds the application's processes among the processes listed.
    pub fn find_pid_and_command(&mut self, listing: &Vec<AppProcess>)
        ensures
            final(self)@ == (AppDataView {
                processes: owned_by(listing.deep_view(), old(self)@.app),
                ..old(self)@
            }),
    {
        self.app_process = AppProcess::find_app_processes(&self.app, listing);
    }

    /// Finds the application's receipts among what the receipt directories
    /// hold.
    pub fn find_log_bom(&mut self, listings: &Vec<Option<Vec<String>>>)
        ensures
            final(self)@ == (AppDataView {
                receipts: receipts_of(listings.deep_view(), old(self)@.app),
                ..old(self)@
            }),
    {
        self.log = LogReceipt::find_bom_files(&self.app, listings);
    }

    /// Finds the application's footprint among what was met under the
    /// search roots, one listing per root, and reports progress through
    /// `in_progress`. What was found before is replaced.
    pub fn find_associate_files<F: Fn(usize, &str)>(
        &mut self,
        listings: &Vec<Vec<VisitedEntry>>,
        in_progress: &F,
    )
        requires
            forall|count: usize, path: &str|
                due_at(count as nat) ==> call_requires(*in_progress, (count, path)),
        ensures
            final(self)@ == (AppDataView {
                footprint: footprint_of(listings.deep_view(), old(self)@.app),
                ..old(self)@
            }),
            distinct_keys(final(self)@.footprint, path_key()),
            kept_informed(*in_progress, looked_all(listings.deep_view())),
    {
        self.associate_files = scan(&self.app, listings, in_progress);
    }

    /// Takes as footprint what the search roots gave when each was scanned
    /// on its own: the lists are merged, and each path stays once.
    pub fn merge_associate_files(&mut self, per_root: &Vec<Vec<(String, String)>>)
        ensures
            final(self)@ == (AppDataView {
                footprint: keep_first(merged(per_root.deep_view()), path_key()),
                ..old(self)@
            }),
            distinct_keys(final(self)@.footprint, path_key()),
    {
        self.associate_files = merge(per_root);
    }

    /// What the session shows for review: every entry of the footprint with
    /// its number, and last the application itself.
    pub fn all_found_entries(&self) -> (r: Vec<(usize, (String, String))>)
        ensures
            numbered_view(r@) == self@.shown(),
    {
        let ghost want = self@.shown();
        let mut result: Vec<(usize, (String, String))> = Vec::new();
        let mut i: usize = 0;
        while i < self.associate_files.len()
            invariant
                i <= self.associate_files.len(),
                result.len() == i,
                want == self@.shown(),
                forall|j: int| 0 <= j < i ==> numbered_view(result@)[j] == want[j],
            decreases self.associate_files.len() - i,
        {
            let entry = &self.associate_files[i];
            result.push((i, (entry.0.clone(), entry.1.clone())));
            assert(numbered_view(result@)[i as int] == want[i as int]);
            i += 1;
        }
        result.push((i, (self.app.path.clone(), self.app.name.clone())));
        assert(numbered_view(result@)[i as int] == want[i as int]);
        assert(numbered_view(result@) =~= want);
        result
    }

    /// Abandons the session: the identity and the three collections are
    /// empty again.
    pub fn reset(&mut self)
        ensures
            final(self)@ == AppDataView::fresh(AppInfoView::empty()),
    {
        self.app = AppInfo::default();
        self.app_process.clear();
        self.log = LogReceipt::default();
        self.associate_files.clear();
        assert(self.app_process.deep_view() =~= Seq::empty());
        assert(self.associate_files.deep_view() =~= Seq::empty());
    }

    /// A copy of this data.
    pub fn duplicate(&self) -> (r: AppData)
        ensures
            r@ == self@,
    {
        let mut app_process: Vec<AppProcess> = Vec::new();
        let mut i: usize = 0;
        assert(app_process.deep_view() =~= self@.processes.take(0));
        while i < self.app_process.len()
            invariant
                i <= self.app_process.len(),
                app_process.deep_view() == self@.processes.take(i as int),
            decreases self.app_process.len() - i,
        {
            let ghost before = app_process.deep_view();
            app_process.push(self.app_process[i].duplicate());
            assert(app_process.deep_view() =~= before.push(self.app_process[i as int]@));
            assert(app_process.deep_view() =~= self@.processes.take(i + 1));
            i += 1;
        }
        assert(self@.processes.take(i as int) =~= self@.processes);
        let mut associate_files: Vec<(String, String)> = Vec::new();
        let mut j: usize = 0;
        assert(associate_files.deep_view() =~= self@.footprint.take(0));
        while j < self.associate_files.len()
            invariant
                j <= self.associate_files.len(),
                associate_files.deep_view() == self@.footprint.take(j as int),
            decreases self.associate_files.len() - j,
        {
            let ghost before = associate_files.deep_view();
            let entry = &self.associate_files[j];
            associate_files.push((entry.0.clone(), entry.1.clone()));
            assert(associate_files.deep_view() =~= before.push(
                self.associate_files.deep_view()[j as int],
            ));
            assert(associate_files.deep_view() =~= self@.footprint.take(j + 1));
            j += 1;
        }
        assert(self@.footprint.take(j as int) =~= self@.footprint);
        AppData {
            app: self.app.duplicate(),
            app_process,
            log: self.log.duplicate(),
            associate_files,
        }
    }
}

impl Clone for AppData {
    fn clone(&self) -> (r: AppData)
        ensures
            r@ == self@,
    {
        self.duplicate()
    }
}

impl Default for AppData {
    /// The data of no session.
    fn default() -> (r: AppData)
        ensures
            r@ == AppDataView::fresh(AppInfoView::empty()),
    {
        AppData::new(AppInfo::default())
    }
}

} // verus!
