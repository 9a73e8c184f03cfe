//! Updates of the application: the progress reported while an update
//! downloads, and the replies of the update commands.
use vstd::prelude::*;

verus! {

/// What the window is told while an update downloads.
#[derive(Debug, PartialEq, Eq)]
pub struct AppUpdate {
    pub total_size: Option<u64>,
    pub downloaded_size: usize,
    pub version: String,
}

/// The bytes of an update downloaded so far.
#[derive(Debug, Clone, Copy, PartialEq, Eq)]
pub struct DownloadProgress {
    pub downloaded: usize,
}

impl DownloadProgress {
    pub fn new() -> (res: Self)
        ensures
            res.downloaded == 0,
    {
        DownloadProgress { downloaded: 0 }
    }

    /// Counts a downloaded chunk and reports the progress of the download of
    /// `version`, whose full size is `content_length` where it is known.
    pub fn record_chunk(&mut self, chunk_length: usize, content_length: Option<u64>, version: &String) -> (report:
        AppUpdate)
        requires
            old(self).downloaded + chunk_length <= usize::MAX,
        ensures
            final(self).downloaded == old(self).downloaded + chunk_length,
            report.total_size == content_length,
            report.downloaded_size == final(self).downloaded,
            report.version@ == version@,
    {
        self.downloaded = self.downloaded + chunk_length;
        AppUpdate { total_size: content_length, downloaded_size: self.downloaded, version: version.clone() }
    }
}

/// The total of a list of chunk lengths.
pub open spec fn total(chunks: Seq<usize>) -> int
    decreases chunks.len(),
{
    if chunks.len() == 0 {
        0
    } else {
        total(chunks.drop_last()) + chunks.last()
    }
}

/// What is reported is what was downloaded: counting the chunks one by one
/// from nothing, the progress reported after the last one is their total.
pub proof fn law_progress_is_total(chunks: Seq<usize>, counted: Seq<usize>)
    requires
        counted.len() == chunks.len() + 1,
        counted[0] == 0,
        forall|i: int| 0 <= i < chunks.len() ==> #[trigger] counted[i + 1] == counted[i] + chunks[i],
    ensures
        counted[chunks.len() as int] == total(chunks),
    decreases chunks.len(),
{
    if chunks.len() > 0 {
        let n = chunks.len() - 1;
        assert forall|i: int| 0 <= i < chunks.drop_last().len() implies #[trigger] counted.drop_last()[
            i + 1] == counted.drop_last()[i] + chunks.drop_last()[i] by {
            assert(counted[i + 1] == counted[i] + chunks[i]);
        }
        law_progress_is_total(chunks.drop_last(), counted.drop_last());
        assert(counted[n + 1] == counted[n] + chunks[n]);
    }
}

/// The reply to a check for updates: whether one is available; an error where
/// the updater is not available or the check failed.
pub open spec fn check_reply_spec(outcome: Result<Result<bool, Seq<char>>, Seq<char>>) -> Result<
    bool,
    Seq<char>,
> {
    match outcome {
        Err(e) => Err("Updater not available: "@ + e),
        Ok(Ok(found)) => Ok(found),
        Ok(Err(e)) => Err("Failed to check for updates: "@ + e),
    }
}

pub open spec fn check_outcome_view(outcome: Result<Result<bool, String>, String>) -> Result<
    Result<bool, Seq<char>>,
    Seq<char>,
> {
    match outcome {
        Err(e) => Err(e@),
        Ok(Ok(found)) => Ok(Ok(found)),
        Ok(Err(e)) => Ok(Err(e@)),
    }
}

pub open spec fn text_error_view<T>(r: Result<T, String>) -> Result<T, Seq<char>> {
    match r {
        Ok(v) => Ok(v),
        Err(e) => Err(e@),
    }
}

/// The reply to a check for updates, from what getting the updater
/// (outer error) and checking (inner result) gave.
pub fn check_for_updates_reply(outcome: Result<Result<bool, String>, String>) -> (res: Result<
    bool,
    String,
>)
    ensures
        text_error_view(res) == check_reply_spec(check_outcome_view(outcome)),
{
    match outcome {
        Err(e) => Err(String::from_str("Updater not available: ").concat(e.as_str())),
        Ok(Ok(found)) => Ok(found),
        Ok(Err(e)) => Err(String::from_str("Failed to check for updates: ").concat(e.as_str())),
    }
}

/// The reply to a request to update, from what updating gave.
pub fn start_update_reply(outcome: Result<(), String>) -> (res: Result<(), String>)
    ensures
        match outcome {
            Ok(()) => res is Ok,
            Err(e) => res matches Err(r) && r@ == "Update failed: "@ + e@,
        },
{
    match outcome {
        Ok(()) => Ok(()),
        Err(e) => Err(String::from_str("Update failed: ").concat(e.as_str())),
    }
}

} // verus!
