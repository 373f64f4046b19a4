//! Installer receipts: the records that an installer leaves of the files it
//! placed on disk.

use vstd::prelude::*;
use vstd::string::StringExecFns;
use crate::app_info::{AppInfo, AppInfoView};
use crate::matcher::{matches_spec, IdentityMatcher};
use crate::paths::{extension_of, file_name, file_name_of, has_extension, stem, stem_of};

verus! {

/// The extension that marks a file as a receipt.
pub open spec fn receipt_extension() -> Seq<char> {
    "bom"@
}

/// The receipts found for an application.
#[derive(Debug)]
pub struct LogReceipt {
    pub bom_file: Vec<String>,
}

impl View for LogReceipt {
    type V = Seq<Seq<char>>;

    open spec fn view(&self) -> Seq<Seq<char>> {
        self.bom_file.deep_view()
    }
}

/// Whether a path is a receipt of the application: its name carries the
/// receipt extension and matches the identity.
pub open spec fn is_receipt(path: Seq<char>, identity: AppInfoView) -> bool {
    match file_name_of(path) {
        Some(name) => extension_of(name) == Some(receipt_extension()) && matches_spec(
            name,
            identity,
        ),
        None => false,
    }
}

/// The receipts among the entries of one directory, in order.
pub open spec fn receipts_in(listing: Seq<Seq<char>>, identity: AppInfoView) -> Seq<Seq<char>>
    decreases listing.len(),
{
    if listing.len() == 0 {
        Seq::empty()
    } else if is_receipt(listing.last(), identity) {
        receipts_in(listing.drop_last(), identity).push(listing.last())
    } else {
        receipts_in(listing.drop_last(), identity)
    }
}

/// The receipts of all receipt directories, directory after directory. A
/// directory that does not exist, listed as `None`, adds nothing.
pub open spec fn receipts_of(listings: Seq<Option<Seq<Seq<char>>>>, identity: AppInfoView) -> Seq<
    Seq<char>,
>
    decreases listings.len(),
{
    if listings.len() == 0 {
        Seq::empty()
    } else {
        receipts_of(listings.drop_last(), identity) + match listings.last() {
            Some(listing) => receipts_in(listing, identity),
            None => Seq::empty(),
        }
    }
}

/// The name of the file that the listing of a receipt is saved under: the
/// receipt's name with `log` for its extension.
pub open spec fn log_name_of(receipt: Seq<char>) -> Option<Seq<char>> {
    match file_name_of(receipt) {
        Some(name) => Some(stem_of(name) + ".log"@),
        None => None,
    }
}

/// Whether `path` is a receipt of the application.
fn check_receipt(matcher: &IdentityMatcher, path: &str) -> (r: bool)
    ensures
        r == is_receipt(path@, matcher.identity()),
{
    match file_name(path) {
        Some(name) => has_extension(name.as_str(), "bom") && matcher.matches(name.as_str()),
        None => false,
    }
}

/// Appends the receipts among `listing` to `out`.
fn push_receipts(out: &mut Vec<String>, matcher: &IdentityMatcher, listing: &Vec<String>)
    ensures
        final(out).deep_view() == old(out).deep_view() + receipts_in(
            listing.deep_view(),
            matcher.identity(),
        ),
{
    let ghost all = listing.deep_view();
    let ghost start = out.deep_view();
    let mut i: usize = 0;
    assert(all.take(0) =~= Seq::empty());
    assert(out.deep_view() =~= start + receipts_in(all.take(0), matcher.identity()));
    while i < listing.len()
        invariant
            i <= listing.len(),
            all == listing.deep_view(),
            out.deep_view() == start + receipts_in(all.take(i as int), matcher.identity()),
        decreases listing.len() - i,
    {
        proof {
            assert(all.take(i + 1).drop_last() =~= all.take(i as int));
            assert(all.take(i + 1).last() == listing[i as int]@);
        }
        if check_receipt(matcher, listing[i].as_str()) {
            let ghost before = out.deep_view();
            out.push(listing[i].clone());
            assert(out.deep_view() =~= before.push(listing[i as int]@));
            assert(out.deep_view() =~= start + receipts_in(
                all.take(i + 1),
                matcher.identity(),
            ));
        }
        i += 1;
    }
    assert(all.take(i as int) =~= all);
}

impl LogReceipt {
    /// Picks the application's receipts out of what the receipt directories
    /// hold. `listings` has one item per directory: the paths of its entries,
    /// or `None` where the directory does not exist, which is no error.
    pub fn find_bom_files(app: &AppInfo, listings: &Vec<Option<Vec<String>>>) -> (r: LogReceipt)
        ensures
            r@ == receipts_of(listings.deep_view(), app@),
    {
        let matcher = IdentityMatcher::new(app);
        let ghost all = listings.deep_view();
        let mut found: Vec<String> = Vec::new();
        let mut i: usize = 0;
        assert(all.take(0) =~= Seq::empty());
        assert(found.deep_view() =~= Seq::empty());
        while i < listings.len()
            invariant
                i <= listings.len(),
                all == listings.deep_view(),
                matcher.identity() == app@,
                found.deep_view() == receipts_of(all.take(i as int), app@),
            decreases listings.len() - i,
        {
            proof {
                assert(all.take(i + 1).drop_last() =~= all.take(i as int));
                assert(all.take(i + 1).last() == listings[i as int].deep_view());
            }
            let ghost before = found.deep_view();
            match &listings[i] {
                Some(listing) => {
                    push_receipts(&mut found, &matcher, listing);
                },
                None => {
                    assert(found.deep_view() =~= before + Seq::<Seq<char>>::empty());
                },
            }
            i += 1;
        }
        assert(all.take(i as int) =~= all);
        LogReceipt { bom_file: found }
    }

    /// The name of the file that the listing of `receipt` is saved under.
    pub fn log_file_name(receipt: &str) -> (r: Option<String>)
        ensures
            r.deep_view() == log_name_of(receipt@),
    {
        match file_name(receipt) {
            Some(name) => {
                let mut out = stem(name.as_str());
                out.append(".log");
                Some(out)
            },
            None => None,
        }
    }

    /// A copy of these receipts.
    pub fn duplicate(&self) -> (r: LogReceipt)
        ensures
            r@ == self@,
    {
        let mut out: Vec<String> = Vec::new();
        let mut i: usize = 0;
        assert(out.deep_view() =~= self@.take(0));
        while i < self.bom_file.len()
            invariant
                i <= self.bom_file.len(),
                out.deep_view() == self@.take(i as int),
            decreases self.bom_file.len() - i,
        {
            let ghost before = out.deep_view();
            out.push(self.bom_file[i].clone());
            assert(out.deep_view() =~= before.push(self.bom_file[i as int]@));
            assert(out.deep_view() =~= self@.take(i + 1));
            i += 1;
        }
        assert(self@.take(i as int) =~= self@);
        LogReceipt { bom_file: out }
    }
}

impl Clone for LogReceipt {
    fn clone(&self) -> (r: LogReceipt)
        ensures
            r@ == self@,
    {
        self.duplicate()
    }
}

impl Default for LogReceipt {
    /// No receipts.
    fn default() -> (r: LogReceipt)
        ensures
            r@ == Seq::<Seq<char>>::empty(),
    {
        let bom_file: Vec<String> = Vec::new();
        assert(bom_file.deep_view() =~= Seq::<Seq<char>>::empty());
        LogReceipt { bom_file }
    }
}

} // verus!
