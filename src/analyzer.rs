use crate::histogram::HistogramBucket;
use vstd::prelude::*;

verus! {

/// Result of an analysis run.
pub enum AnalyzerResult {
    /// The number of nodes in the dataset
    NodeCount(usize),
    /// A histogram of the point counts of the nodes
    Histogram(Vec<HistogramBucket>),
}

/// Why an analysis could not be run.
#[derive(Clone, Copy, Debug, PartialEq, Eq, Structural)]
pub enum AnalyzerError {
    /// The root directory of the dataset does not exist.
    RootDirMissing,
    /// The dataset has no packed hierarchy file.
    HierarchyFileMissing,
    /// The hierarchy file's length is not a multiple of the record size it names.
    HierarchySize { record_size: usize },
    /// A multi-file dataset holds no point-cloud file.
    NoFiles,
    /// The directory holds none of the markers of a known tiling format.
    UnknownFormat,
}

/// `ext` is one of the two point-cloud file extensions, `las` and `laz` (in ASCII bytes).
pub open spec fn supported_extension(ext: Seq<u8>) -> bool {
    ext == seq![108u8, 97u8, 115u8] || ext == seq![108u8, 97u8, 122u8]
}

/// Whether a file with the given extension, if any, is a point-cloud file.
pub fn is_supported_format(extension: Option<&[u8]>) -> (r: bool)
    ensures
        r == match extension {
            Some(e) => supported_extension(e@),
            None => false,
        },
{
    match extension {
        Some(e) => {
            if e.len() == 3 && e[0] == 108u8 && e[1] == 97u8 && (e[2] == 115u8 || e[2] == 122u8) {
                assert(supported_extension(e@)) by {
                    if e[2] == 115u8 {
                        assert(e@ =~= seq![108u8, 97u8, 115u8]);
                    } else {
                        assert(e@ =~= seq![108u8, 97u8, 122u8]);
                    }
                }
                true
            } else {
                false
            }
        },
        None => false,
    }
}

/// A multi-file dataset can be analyzed only if it holds at least one point-cloud file.
pub fn check_file_count(file_count: usize) -> (r: Result<(), AnalyzerError>)
    ensures
        r is Ok <==> file_count > 0,
        r is Err ==> r == Err::<(), AnalyzerError>(AnalyzerError::NoFiles),
{
    if file_count == 0 {
        Err(AnalyzerError::NoFiles)
    } else {
        Ok(())
    }
}

/// The results of a run in their order: the node count if it was asked for, then the
/// histogram if there is one.
pub fn collect_results(
    count_nodes: bool,
    node_count: usize,
    histogram: Option<Vec<HistogramBucket>>,
) -> (r: Vec<AnalyzerResult>)
    ensures
        r@.len() == (if count_nodes {
            1int
        } else {
            0int
        }) + (if histogram is Some {
            1int
        } else {
            0int
        }),
        count_nodes ==> r@[0] == AnalyzerResult::NodeCount(node_count),
        histogram is Some ==> r@.last() == AnalyzerResult::Histogram(histogram->0),
{
    let mut r: Vec<AnalyzerResult> = Vec::new();
    if count_nodes {
        r.push(AnalyzerResult::NodeCount(node_count));
    }
    match histogram {
        Some(h) => {
            r.push(AnalyzerResult::Histogram(h));
        },
        None => {},
    }
    r
}

} // verus!
