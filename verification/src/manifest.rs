//! The file manifest of a product: ordered entries of name and size.
//!
//! Sizes arrive as decimal strings; an entry whose size does not parse is an
//! unrecoverable precondition failure for the batch, detected before any
//! download begins.

use crate::decimal::dec_value;
use crate::decimal::is_dec_digits;
use crate::decimal::parse_file_size;
use crate::errors::DownloadError;
use vstd::prelude::*;

verus! {

/// One remote file of a product: its name under the target directory and its
/// expected size, as the decimal string found in the source data.
#[derive(Clone, Debug)]
pub struct FileManifestEntry {
    pub file_name: String,
    pub file_size: String,
}

/// The size a manifest entry declares.
pub open spec fn entry_size(e: FileManifestEntry) -> nat {
    dec_value(e.file_size@)
}

/// Whether an entry's size parses cleanly into a 64-bit counter.
pub open spec fn entry_wf(e: FileManifestEntry) -> bool {
    is_dec_digits(e.file_size@) && dec_value(e.file_size@) <= u64::MAX
}

/// The sum of the declared sizes of all entries.
pub open spec fn total_size_spec(m: Seq<FileManifestEntry>) -> nat
    decreases m.len(),
{
    if m.len() == 0 {
        0
    } else {
        total_size_spec(m.drop_last()) + entry_size(m.last())
    }
}

/// Whether a manifest is acceptable: every size parses, and the batch-wide
/// total fits the shared 64-bit progress counter.
pub open spec fn manifest_wf(m: Seq<FileManifestEntry>) -> bool {
    (forall|i: int| 0 <= i < m.len() ==> entry_wf(#[trigger] m[i])) && total_size_spec(m)
        <= u64::MAX
}

/// Dropping entries from the end never increases the total size.
proof fn lemma_total_prefix_le(m: Seq<FileManifestEntry>, j: int)
    requires
        0 <= j <= m.len(),
    ensures
        total_size_spec(m.take(j)) <= total_size_spec(m),
    decreases m.len() - j,
{
    if j == m.len() {
        assert(m.take(j) =~= m);
    } else {
        lemma_total_prefix_le(m, j + 1);
        assert(m.take(j + 1).drop_last() =~= m.take(j));
        assert(total_size_spec(m.take(j + 1)) == total_size_spec(m.take(j)) + entry_size(
            m.take(j + 1).last(),
        ));
    }
}

/// Computes the batch-wide total expected size. Succeeds exactly when every
/// entry's size parses and the sum fits in 64 bits; any other manifest is a
/// fatal precondition violation.
pub fn total_file_size(files: &Vec<FileManifestEntry>) -> (r: Result<u64, DownloadError>)
    ensures
        r is Ok <==> manifest_wf(files@),
        r matches Ok(t) ==> t == total_size_spec(files@),
        r matches Err(e) ==> e == DownloadError::Manifest,
{
    let mut acc: u64 = 0;
    let mut i: usize = 0;
    while i < files.len()
        invariant
            0 <= i <= files@.len(),
            forall|k: int| 0 <= k < i ==> entry_wf(#[trigger] files@[k]),
            acc == total_size_spec(files@.take(i as int)),
        decreases files@.len() - i,
    {
        proof {
            assert(files@.take(i + 1).drop_last() =~= files@.take(i as int));
            assert(files@.take(i + 1).last() == files@[i as int]);
        }
        let size = match parse_file_size(files[i].file_size.as_str()) {
            Some(size) => size,
            None => {
                return Err(DownloadError::Manifest);
            },
        };
        if acc > u64::MAX - size {
            proof {
                lemma_total_prefix_le(files@, i + 1);
            }
            return Err(DownloadError::Manifest);
        }
        acc = acc + size;
        i = i + 1;
    }
    proof {
        assert(files@.take(files@.len() as int) =~= files@);
    }
    Ok(acc)
}

} // verus!
