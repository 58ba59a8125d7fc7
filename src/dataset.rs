use crate::analyzer::AnalyzerError;
use vstd::prelude::*;

verus! {

/// The layout of a tiled dataset, which decides how it is analyzed.
#[derive(Clone, Copy, Debug, PartialEq, Eq, Structural)]
pub enum DatasetKind {
    /// One file per node, under the `ept-data` directory.
    MultiFile,
    /// One packed hierarchy file of fixed-size node records.
    PackedHierarchy,
}

/// One of `names` is `name`.
pub open spec fn has_entry(names: Seq<String>, name: Seq<char>) -> bool {
    exists|i: int| 0 <= i < names.len() && #[trigger] names[i]@ == name
}

/// Whether one of the entry names of a directory is `name`.
fn contains_entry(entry_names: &Vec<String>, name: &str) -> (r: bool)
    ensures
        r == has_entry(entry_names@, name@),
{
    let target = name.to_owned();
    let mut i: usize = 0;
    while i < entry_names.len()
        invariant
            i <= entry_names@.len(),
            target@ == name@,
            forall|k: int| 0 <= k < i ==> entry_names@[k]@ != name@,
        decreases entry_names@.len() - i,
    {
        if entry_names[i] == target {
            return true;
        }
        i = i + 1;
    }
    false
}

/// Whether a directory with these entry names is an Entwine dataset: it has `ept-data`.
pub fn is_entwine_dataset(entry_names: &Vec<String>) -> (r: bool)
    ensures
        r == has_entry(entry_names@, "ept-data"@),
{
    contains_entry(entry_names, "ept-data")
}

/// Whether a directory with these entry names is a legacy Potree dataset: it has `cloud.js`.
pub fn is_potree_legacy_dataset(entry_names: &Vec<String>) -> (r: bool)
    ensures
        r == has_entry(entry_names@, "cloud.js"@),
{
    contains_entry(entry_names, "cloud.js")
}

/// Whether a directory with these entry names is a Potree v2 dataset: it has `hierarchy.bin`.
pub fn is_potree_v2_dataset(entry_names: &Vec<String>) -> (r: bool)
    ensures
        r == has_entry(entry_names@, "hierarchy.bin"@),
{
    contains_entry(entry_names, "hierarchy.bin")
}

/// The layout of a dataset whose root directory has these entry names: multi-file if it has
/// `ept-data` or `cloud.js`, else packed if it has `hierarchy.bin`.
pub fn dataset_kind(entry_names: &Vec<String>) -> (r: Result<DatasetKind, AnalyzerError>)
    ensures
        has_entry(entry_names@, "ept-data"@) || has_entry(entry_names@, "cloud.js"@) ==> r
            == Ok::<DatasetKind, AnalyzerError>(DatasetKind::MultiFile),
        !has_entry(entry_names@, "ept-data"@) && !has_entry(entry_names@, "cloud.js"@) ==> r
            == if has_entry(entry_names@, "hierarchy.bin"@) {
            Ok::<DatasetKind, AnalyzerError>(DatasetKind::PackedHierarchy)
        } else {
            Err::<DatasetKind, AnalyzerError>(AnalyzerError::UnknownFormat)
        },
{
    if is_entwine_dataset(entry_names) || is_potree_legacy_dataset(entry_names) {
        Ok(DatasetKind::MultiFile)
    } else if is_potree_v2_dataset(entry_names) {
        Ok(DatasetKind::PackedHierarchy)
    } else {
        Err(AnalyzerError::UnknownFormat)
    }
}

} // verus!
