//! The files that the open editors report as active.
use vstd::prelude::*;

use crate::text::{chars_of, string_of};

verus! {

/// The header line put before a non-empty list of active files.
pub open spec fn active_files_header() -> Seq<char> {
    "The active files are:"@
}

/// The files of the editors that answered, in editor order.
pub open spec fn answered_files(reports: Seq<Option<Seq<Seq<char>>>>) -> Seq<Seq<char>>
    decreases reports.len(),
{
    if reports.len() == 0 {
        Seq::empty()
    } else {
        let rest = answered_files(reports.drop_last());
        match reports.last() {
            Some(fs) => rest + fs,
            None => rest,
        }
    }
}

/// The active-file lines for the editors' reports: the files of the
/// editors that answered, after a header line when there is at least one.
pub open spec fn spec_active_files(reports: Seq<Option<Seq<Seq<char>>>>) -> Seq<Seq<char>> {
    let files = answered_files(reports);
    if files.len() == 0 {
        files
    } else {
        seq![active_files_header()] + files
    }
}

/// The view of one editor's report.
pub open spec fn report_view(r: Option<Vec<String>>) -> Option<Seq<Seq<char>>> {
    match r {
        Some(v) => Some(v@.map_values(|s: String| s@)),
        None => None,
    }
}

/// Combines the editors' reports (`None` for an editor that failed to
/// answer) into the list of active-file lines.
pub fn combine_active_files(reports: &Vec<Option<Vec<String>>>) -> (r: Vec<String>)
    ensures
        r@.map_values(|s: String| s@) == spec_active_files(reports@.map_values(|o: Option<Vec<String>>| report_view(o))),
{
    let ghost rv = reports@.map_values(|o: Option<Vec<String>>| report_view(o));
    let mut files: Vec<String> = Vec::new();
    let mut i: usize = 0;
    assert(rv.take(0) =~= Seq::<Option<Seq<Seq<char>>>>::empty());
    while i < reports.len()
        invariant
            i <= reports.len(),
            rv == reports@.map_values(|o: Option<Vec<String>>| report_view(o)),
            files@.map_values(|s: String| s@) == answered_files(rv.take(i as int)),
        decreases reports.len() - i,
    {
        let ghost before = files@.map_values(|s: String| s@);
        match &reports[i] {
            Some(fs) => {
                let mut j: usize = 0;
                while j < fs.len()
                    invariant
                        j <= fs.len(),
                        files@.map_values(|s: String| s@) == before + fs@.map_values(|s: String| s@).take(j as int),
                    decreases fs.len() - j,
                {
                    let ghost b2 = files@;
                    files.push(string_of(&chars_of(fs[j].as_str())));
                    assert(files@.map_values(|s: String| s@) =~= b2.map_values(|s: String| s@).push(fs@[j as int]@));
                    assert(fs@.map_values(|s: String| s@).take(j + 1) =~= fs@.map_values(|s: String| s@).take(j as int).push(fs@[j as int]@));
                    j = j + 1;
                }
                assert(fs@.map_values(|s: String| s@).take(fs.len() as int) =~= fs@.map_values(|s: String| s@));
            },
            None => {},
        }
        assert(rv.take(i + 1).drop_last() =~= rv.take(i as int));
        assert(rv.take(i + 1).last() == report_view(reports@[i as int]));
        i = i + 1;
    }
    assert(rv.take(reports.len() as int) =~= rv);
    if files.len() == 0 {
        return files;
    }
    let mut r: Vec<String> = Vec::new();
    r.push(String::from_str("The active files are:"));
    let mut k: usize = 0;
    while k < files.len()
        invariant
            k <= files.len(),
            r@.map_values(|s: String| s@) == seq![active_files_header()] + files@.map_values(|s: String| s@).take(k as int),
        decreases files.len() - k,
    {
        let ghost b3 = r@;
        r.push(string_of(&chars_of(files[k].as_str())));
        assert(r@.map_values(|s: String| s@) =~= b3.map_values(|s: String| s@).push(files@[k as int]@));
        assert(files@.map_values(|s: String| s@).take(k + 1) =~= files@.map_values(|s: String| s@).take(k as int).push(files@[k as int]@));
        k = k + 1;
    }
    assert(files@.map_values(|s: String| s@).take(files.len() as int) =~= files@.map_values(|s: String| s@));
    r
}

} // verus!
