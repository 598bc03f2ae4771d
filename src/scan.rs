//! Bookkeeping of scans: which scan locations are being scanned and whether
//! each was asked to stop, and the progress events a scan reports.
use vstd::prelude::*;
use crate::text::strs;
use std::collections::HashMap;
use vstd::std_specs::iter::IteratorSpec;

verus! {

/// The registry of active scans: for each scan location being scanned,
/// whether it has been asked to stop. Scans poll their flag between folders.
pub struct ScannerManager {
    active_scanners: HashMap<i64, bool>,
}

impl View for ScannerManager {
    type V = Map<i64, bool>;

    closed spec fn view(&self) -> Map<i64, bool> {
        self.active_scanners@
    }
}

impl ScannerManager {
    pub fn new() -> (r: ScannerManager)
        ensures
            r@ == Map::<i64, bool>::empty(),
    {
        ScannerManager { active_scanners: HashMap::new() }
    }

    pub fn is_scan_active(&self, location_id: i64) -> (r: bool)
        ensures
            r == self@.contains_key(location_id),
    {
        broadcast use vstd::std_specs::hash::group_hash_axioms;

        self.active_scanners.contains_key(&location_id)
    }

    /// Whether the scan of `location_id` is registered and asked to stop.
    pub fn is_cancelled(&self, location_id: i64) -> (r: bool)
        ensures
            r == (self@.contains_key(location_id) && self@[location_id]),
    {
        broadcast use vstd::std_specs::hash::group_hash_axioms;

        match self.active_scanners.get(&location_id) {
            Some(b) => *b,
            None => false,
        }
    }

    /// Registers a scan of `location_id` with a fresh, unset stop flag.
    pub fn register_scanner(&mut self, location_id: i64)
        ensures
            final(self)@ == old(self)@.insert(location_id, false),
    {
        broadcast use vstd::std_specs::hash::group_hash_axioms;

        self.active_scanners.insert(location_id, false);
    }

    /// Asks the scan of `location_id` to stop; false when none is registered.
    pub fn cancel_scan(&mut self, location_id: i64) -> (r: bool)
        ensures
            r == old(self)@.contains_key(location_id),
            final(self)@ == if r {
                old(self)@.insert(location_id, true)
            } else {
                old(self)@
            },
    {
        broadcast use vstd::std_specs::hash::group_hash_axioms;

        if self.active_scanners.contains_key(&location_id) {
            self.active_scanners.insert(location_id, true);
            true
        } else {
            false
        }
    }

    /// Forgets the scan of `location_id`.
    pub fn remove_scanner(&mut self, location_id: i64)
        ensures
            final(self)@ == old(self)@.remove(location_id),
    {
        broadcast use vstd::std_specs::hash::group_hash_axioms;

        self.active_scanners.remove(&location_id);
    }

    /// Asks every registered scan to stop; returns how many there are.
    pub fn cancel_all_scans(&mut self) -> (r: usize)
        ensures
            r == old(self)@.len(),
            final(self)@.dom() == old(self)@.dom(),
            forall|k: i64| #[trigger] final(self)@.contains_key(k) ==> final(self)@[k],
    {
        broadcast use vstd::std_specs::hash::group_hash_axioms;

        let n = self.active_scanners.len();
        let ghost m0 = self.active_scanners@;
        let mut keys: Vec<i64> = Vec::new();
        let ghost v = vstd::std_specs::hash::spec_hash_map_iter(&self.active_scanners).remaining();
        for entry in it: self.active_scanners.iter()
            invariant
                it.seq() == v,
                v.len() == m0.dom().len(),
                forall|q: int| 0 <= q < v.len() ==> m0.contains_key(*(#[trigger] v[q]).0),
                forall|k: i64| #[trigger] m0.contains_key(k) ==> v.contains((&k, &m0[k])),
                keys@.len() == it.index(),
                forall|q: int| 0 <= q < keys@.len() ==> keys@[q] == *(#[trigger] v[q]).0,
        {
            keys.push(*entry.0);
        }
        proof {
            assert forall|k: i64| m0.contains_key(k) implies #[trigger] keys@.contains(k) by {
                assert(v.contains((&k, &m0[k])));
                let q = choose|q: int| 0 <= q < v.len() && v[q] == (&k, &m0[k]);
                assert(keys@[q] == k);
            }
            assert forall|q: int| 0 <= q < keys@.len() implies m0.contains_key(#[trigger] keys@[q]) by {
                assert(keys@[q] == *v[q].0);
            }
        }
        let mut i: usize = 0;
        while i < keys.len()
            invariant
                i <= keys@.len(),
                self.active_scanners@.dom() == m0.dom(),
                forall|q: int| 0 <= q < keys@.len() ==> m0.contains_key(#[trigger] keys@[q]),
                forall|q: int| 0 <= q < i ==> self.active_scanners@[#[trigger] keys@[q]],
            decreases keys.len() - i,
        {
            let k = keys[i];
            let ghost before = self.active_scanners@;
            self.active_scanners.insert(k, true);
            assert(self.active_scanners@.dom() =~= m0.dom());
            assert forall|q: int| 0 <= q < i + 1 implies self.active_scanners@[#[trigger] keys@[q]] by {
                if keys@[q] != k {
                    assert(before[keys@[q]]);
                }
            }
            i += 1;
        }
        proof {
            assert forall|k: i64| #[trigger] self@.contains_key(k) implies self@[k] by {
                assert(keys@.contains(k));
                let q = choose|q: int| 0 <= q < keys@.len() && keys@[q] == k;
                assert(self.active_scanners@[keys@[q]]);
            }
        }
        n
    }
}

/// How a scan's sort order reads in a query.
#[derive(Debug, Clone, Copy, PartialEq, Eq, Structural)]
pub enum SortOption {
    NameAsc,
    NameDesc,
    DateAsc,
    DateDesc,
    DateAddedAsc,
    DateAddedDesc,
}

impl Default for SortOption {
    fn default() -> (r: SortOption)
        ensures
            r == SortOption::DateDesc,
    {
        SortOption::DateDesc
    }
}

pub open spec fn sort_clause(o: SortOption) -> Seq<char> {
    match o {
        SortOption::NameAsc => "name ASC"@,
        SortOption::NameDesc => "name DESC"@,
        SortOption::DateAsc => "modified_date ASC"@,
        SortOption::DateDesc => "modified_date DESC"@,
        SortOption::DateAddedAsc => "created_date ASC"@,
        SortOption::DateAddedDesc => "created_date DESC"@,
    }
}

impl SortOption {
    /// The `ORDER BY` clause of this sort order.
    pub fn to_sql(&self) -> (r: &'static str)
        ensures
            r@ == sort_clause(*self),
    {
        match self {
            SortOption::NameAsc => "name ASC",
            SortOption::NameDesc => "name DESC",
            SortOption::DateAsc => "modified_date ASC",
            SortOption::DateDesc => "modified_date DESC",
            SortOption::DateAddedAsc => "created_date ASC",
            SortOption::DateAddedDesc => "created_date DESC",
        }
    }
}

/// A progress event of a scan.
#[derive(Debug, Clone)]
pub struct ScanProgress {
    pub location_id: i64,
    pub status: String,
    pub current_path: String,
    pub processed_items: u64,
    pub total_items: u64,
    pub completed_successfully: bool,
    pub error: Option<String>,
}

/// The progress of one scan: folders processed out of the total, and the
/// errors met so far. A folder's failure is recorded, never fatal.
pub struct ScanTracker {
    pub location_id: i64,
    pub root_path: String,
    pub total: u64,
    pub processed: u64,
    pub errors: Vec<String>,
}

/// The errors joined by `"; "`.
pub open spec fn joined_errors(es: Seq<Seq<char>>) -> Seq<char>
    decreases es.len(),
{
    if es.len() == 0 {
        seq![]
    } else if es.len() == 1 {
        es[0]
    } else {
        joined_errors(es.drop_last()) + "; "@ + es.last()
    }
}

fn join_errors(es: &Vec<String>) -> (r: String)
    ensures
        r@ == joined_errors(strs(es@)),
{
    let ghost v = strs(es@);
    let mut out = String::new();
    let mut i: usize = 0;
    while i < es.len()
        invariant
            i <= es.len(),
            v == strs(es@),
            out@ == joined_errors(v.take(i as int)),
        decreases es.len() - i,
    {
        assert(v.take(i + 1).drop_last() == v.take(i as int));
        assert(v[i as int] == es@[i as int]@);
        if i > 0 {
            out.append("; ");
        } else {
            assert(out@ == Seq::<char>::empty());
            assert(out@ + es@[0]@ == es@[0]@);
        }
        out.append(es[i].as_str());
        i += 1;
    }
    assert(v.take(es.len() as int) == v);
    out
}

fn progress(
    location_id: i64,
    status: &str,
    current_path: &str,
    processed: u64,
    total: u64,
    completed: bool,
    error: Option<String>,
) -> (r: ScanProgress)
    ensures
        r.location_id == location_id,
        r.status@ == status@,
        r.current_path@ == current_path@,
        r.processed_items == processed,
        r.total_items == total,
        r.completed_successfully == completed,
        r.error == error,
{
    ScanProgress {
        location_id,
        status: String::from_str(status),
        current_path: String::from_str(current_path),
        processed_items: processed,
        total_items: total,
        completed_successfully: completed,
        error,
    }
}

impl ScanTracker {
    /// Starts tracking a scan of `total` folders; returns the first event.
    pub fn start(location_id: i64, root_path: &str, total: u64) -> (r: (ScanTracker, ScanProgress))
        ensures
            r.0.location_id == location_id,
            r.0.root_path@ == root_path@,
            r.0.total == total,
            r.0.processed == 0,
            r.0.errors@.len() == 0,
            r.1.status@ == "Initializing Scan"@,
            r.1.processed_items == 0,
            r.1.total_items == total,
            r.1.current_path@ == root_path@,
            r.1.error is None,
            !r.1.completed_successfully,
            r.1.location_id == location_id,
    {
        let t = ScanTracker {
            location_id,
            root_path: String::from_str(root_path),
            total,
            processed: 0,
            errors: Vec::new(),
        };
        let p = progress(location_id, "Initializing Scan", root_path, 0, total, false, None);
        (t, p)
    }

    /// Records a processed folder, with the error its processing met if any.
    pub fn folder_done(&mut self, folder_path: &str, error: Option<String>) -> (r: ScanProgress)
        requires
            old(self).processed < u64::MAX,
        ensures
            final(self).processed == old(self).processed + 1,
            final(self).total == old(self).total,
            final(self).location_id == old(self).location_id,
            final(self).root_path == old(self).root_path,
            strs(final(self).errors@) == match error {
                Some(e) => strs(old(self).errors@).push(e@),
                None => strs(old(self).errors@),
            },
            r.status@ == "Scanning"@,
            r.processed_items == final(self).processed,
            r.total_items == old(self).total,
            r.current_path@ == folder_path@,
            r.error is None,
            !r.completed_successfully,
            r.location_id == old(self).location_id,
    {
        match error {
            Some(e) => {
                let ghost before = strs(self.errors@);
                let ghost ev = e@;
                self.errors.push(e);
                assert(strs(self.errors@) =~= before.push(ev));
            },
            None => {},
        }
        self.processed = self.processed + 1;
        progress(self.location_id, "Scanning", folder_path, self.processed, self.total, false, None)
    }

    /// Records an error met while walking the directory tree.
    pub fn walk_error(&mut self, message: String) -> (r: ScanProgress)
        ensures
            final(self).processed == old(self).processed,
            final(self).total == old(self).total,
            final(self).location_id == old(self).location_id,
            final(self).root_path == old(self).root_path,
            strs(final(self).errors@) == strs(old(self).errors@).push(message@),
            r.status@ == "Error"@,
            r.processed_items == old(self).processed,
            r.current_path@ == old(self).root_path@,
            r.error matches Some(m) && m@ == message@,
            !r.completed_successfully,
    {
        let copy = message.clone();
        let ghost before = strs(self.errors@);
        self.errors.push(message);
        assert(strs(self.errors@) =~= before.push(copy@));
        progress(
            self.location_id,
            "Error",
            self.root_path.as_str(),
            self.processed,
            self.total,
            false,
            Some(copy),
        )
    }

    /// The event of a scan stopped on request.
    pub fn cancelled(&self) -> (r: ScanProgress)
        ensures
            r.status@ == "Cancelled"@,
            r.processed_items == self.processed,
            r.total_items == self.total,
            r.current_path@.len() == 0,
            r.error is None,
            !r.completed_successfully,
    {
        proof {
            reveal_strlit("");
        }
        progress(self.location_id, "Cancelled", "", self.processed, self.total, false, None)
    }

    /// The closing event: successful exactly when no error was met.
    pub fn finish(&self) -> (r: ScanProgress)
        ensures
            r.status@ == "Completed"@,
            r.processed_items == self.processed,
            r.total_items == self.total,
            r.current_path@.len() == 0,
            r.completed_successfully == (self.errors@.len() == 0),
            self.errors@.len() == 0 ==> r.error is None,
            self.errors@.len() > 0 ==> (r.error matches Some(m) && m@ == joined_errors(strs(self.errors@))),
    {
        proof {
            reveal_strlit("");
        }
        let error = if self.errors.len() == 0 {
            None
        } else {
            Some(join_errors(&self.errors))
        };
        progress(
            self.location_id,
            "Completed",
            "",
            self.processed,
            self.total,
            self.errors.len() == 0,
            error,
        )
    }
}

} // verus!
