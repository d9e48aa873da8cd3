//! The codebase index: sync progress and results, fragment metadata, and
//! the manager's limits. No codebase is ever indexed: the manager creates
//! no index and knows no codebase.
use std::collections::hash_map::DefaultHasher;
use std::hash::Hasher;
use vstd::prelude::*;
use vstd::std_specs::hash::DefaultHasherAdditionalSpecFns;
use crate::paths::{hash_path_into, join_path, path_hash_writes, path_join};
use crate::text::{append_str, decimal, push_decimal};

verus! {

/// `anyhow::Error`, declared so that fallible operations can return it;
/// the library only carries it, opaque.
#[verifier::external_type_specification]
#[verifier::external_body]
pub struct ExAnyhowError(anyhow::Error);

#[derive(Debug, Copy, Clone)]
pub enum SyncProgress {
    /// Discovering how many nodes need to be synced.
    Discovering { total_nodes: usize },
    /// Syncing the nodes to the server.
    Syncing { completed_nodes: usize, total_nodes: usize },
}

/// The index of one codebase; it holds nothing.
pub struct CodebaseIndex {
    _private: (),
}

/// The identifier of a retrieval request.
#[derive(Clone, Debug, Eq, Hash, PartialEq, Structural)]
pub struct RetrievalID(pub usize);

#[derive(Debug)]
pub struct ReadFragmentResult {
    pub content: String,
}

/// How many fragments a flush sent, and their total size.
#[derive(Debug, Clone)]
pub struct FlushFragmentResult {
    pub fragment_count: usize,
    pub total_fragment_size_bytes: usize,
}

impl Default for FlushFragmentResult {
    fn default() -> (r: Self)
        ensures
            r.fragment_count == 0,
            r.total_fragment_size_bytes == 0,
    {
        FlushFragmentResult { fragment_count: 0, total_fragment_size_bytes: 0 }
    }
}

impl FlushFragmentResult {
    /// Adds another flush's counts to these (`+=`).
    pub fn add_assign(&mut self, rhs: Self)
        requires
            old(self).fragment_count + rhs.fragment_count <= usize::MAX,
            old(self).total_fragment_size_bytes + rhs.total_fragment_size_bytes <= usize::MAX,
        ensures
            final(self).fragment_count == old(self).fragment_count + rhs.fragment_count,
            final(self).total_fragment_size_bytes == old(self).total_fragment_size_bytes
                + rhs.total_fragment_size_bytes,
    {
        self.fragment_count = self.fragment_count + rhs.fragment_count;
        self.total_fragment_size_bytes = self.total_fragment_size_bytes
            + rhs.total_fragment_size_bytes;
    }
}

/// Generating embeddings for fragments; never run.
pub struct GenerateEmbeddingsTask {
    _private: (),
}

/// Updating the index's intermediate nodes; never run.
pub struct UpdateIntermediateNodesTask {
    _private: (),
}

/// Syncing the index's Merkle tree; never run.
pub struct SyncMerkleTreeTask {
    _private: (),
}

pub enum SyncTask {
    GenerateEmbeddings(GenerateEmbeddingsTask),
    UpdateIntermediateNodes(UpdateIntermediateNodesTask),
    SyncMerkleTree(SyncMerkleTreeTask),
}

pub enum SyncQueueResult {
    /// Sync completed successfully.
    Success,
    /// Sync was aborted before completion.
    Aborted,
    /// Sync failed with an error string.
    Failed(String),
}

/// A chunk of a source file, with its line and byte range.
#[derive(Debug, Clone)]
pub struct Fragment<'a> {
    pub content: &'a str,
    pub start_line: usize,
    pub end_line: usize,
    pub start_byte_index: usize,
    pub end_byte_index: usize,
    pub file_path: &'a str,
}

/// Splits source code into fragments for embedding; nothing is chunked.
pub fn chunk_code<'a>(_code: &'a str, _path: &'a str) -> (r: Vec<Fragment<'a>>)
    ensures
        r@.len() == 0,
{
    Vec::new()
}

/// Where a fragment lies in its file.
#[derive(Debug, Clone, PartialEq)]
pub struct FragmentLocation {
    pub start_line: usize,
    /// End line number (inclusive).
    pub end_line: usize,
    /// The byte range of the fragment in the source text: its first byte
    /// and the byte after its last.
    pub byte_range_start: usize,
    pub byte_range_end: usize,
}

#[derive(Debug, Clone, PartialEq)]
pub struct FragmentMetadata {
    pub absolute_path: String,
    pub location: FragmentLocation,
}

impl FragmentMetadata {
    /// The estimated content size in bytes, from the stored byte range
    /// (0 for a reversed range).
    pub fn content_byte_size(&self) -> (r: usize)
        ensures
            r == (if self.location.byte_range_end >= self.location.byte_range_start {
                self.location.byte_range_end - self.location.byte_range_start
            } else {
                0
            }),
    {
        self.location.byte_range_end.saturating_sub(self.location.byte_range_start)
    }
}

/// Days after which an index snapshot expires.
pub const REPO_SNAPSHOT_SHELF_LIFE_DAYS: u64 = 30;

/// Splits persisted index metadata into `(invalid, valid)`: none is
/// invalid.
pub fn split_snapshot_metadata_by_validity<T>(persisted_codebase_indices: Vec<T>) -> (r: (
    Vec<T>,
    Vec<T>,
))
    ensures
        r.0@.len() == 0,
        r.1@ == persisted_codebase_indices@,
{
    (Vec::new(), persisted_codebase_indices)
}

/// No repository has a snapshot.
pub fn has_snapshot(_repo_path: &str) -> (r: bool)
    ensures
        !r,
{
    false
}

/// Removes snapshot files that no persisted index refers to; there are
/// none.
pub fn clean_up_snapshot_files<T>(_snapshot_file_dir: &str, _persisted_codebase_indices: &[T]) {
}

/// Moves snapshots into the secure state directory; there is nothing to
/// move.
pub fn migrate_snapshots_to_secure_dir_if_needed() -> (r: Result<(), anyhow::Error>)
    ensures
        r is Ok,
{
    Ok(())
}

/// The snapshot file of a repository inside `snapshot_dir`: named after
/// the default hash of the repository's path.
pub fn snapshot_path(snapshot_dir: &str, repo_path: &str) -> (r: String)
    ensures
        r@ == path_join(
            snapshot_dir@,
            "snapshot_"@ + decimal(
                DefaultHasher::spec_finish(path_hash_writes(repo_path@)) as nat,
            ),
        ),
{
    let mut hasher = DefaultHasher::new();
    hash_path_into(&mut hasher, repo_path);
    proof {
        assert(hasher@ =~= path_hash_writes(repo_path@));
    }
    let h = hasher.finish();
    let mut name = String::new();
    append_str(&mut name, "snapshot_");
    push_decimal(&mut name, h as u128);
    join_path(snapshot_dir, name.as_str())
}

/// There is no snapshot directory.
pub fn snapshot_dir() -> (r: Option<String>)
    ensures
        r is None,
{
    None
}

/// User-facing indexing errors.
pub enum CodebaseIndexingError {
    BuildTreeError,
    ExceededMaxFileLimit,
    MaxDepthExceeded,
    FailedToGenerateEmbeddings(Vec<FragmentMetadata>),
    Other(anyhow::Error),
}

/// User-facing indexing completion status.
pub enum CodebaseIndexFinishedStatus {
    Completed,
    Failed(CodebaseIndexingError),
}

/// Why relevant files could not be retrieved.
pub enum RetrieveFileError {
    IndexSyncing,
    IndexFailed(CodebaseIndexingError),
    IndexNotFound,
}

/// User-facing codebase index status.
pub struct CodebaseIndexStatus {
    pub has_pending: bool,
    pub has_synced_version: bool,
    pub last_sync_successful: Option<CodebaseIndexFinishedStatus>,
    pub sync_progress: Option<SyncProgress>,
}

impl CodebaseIndexStatus {
    pub fn has_pending(&self) -> (r: bool)
        ensures
            r == self.has_pending,
    {
        self.has_pending
    }

    pub fn has_synced_version(&self) -> (r: bool)
        ensures
            r == self.has_synced_version,
    {
        self.has_synced_version
    }

    /// Whether the last sync completed; `None` before the first one ended.
    pub fn last_sync_successful(&self) -> (r: Option<bool>)
        ensures
            match self.last_sync_successful {
                Some(res) => r == Some(res is Completed),
                None => r is None,
            },
    {
        match &self.last_sync_successful {
            Some(res) => Some(
                match res {
                    CodebaseIndexFinishedStatus::Completed => true,
                    CodebaseIndexFinishedStatus::Failed(_) => false,
                },
            ),
            None => None,
        }
    }

    pub fn last_sync_result(&self) -> (r: Option<&CodebaseIndexFinishedStatus>)
        ensures
            match self.last_sync_successful {
                Some(res) => r == Some(&res),
                None => r is None,
            },
    {
        self.last_sync_successful.as_ref()
    }

    pub fn sync_progress(&self) -> (r: Option<&SyncProgress>)
        ensures
            match self.sync_progress {
                Some(p) => r == Some(&p),
                None => r is None,
            },
    {
        self.sync_progress.as_ref()
    }
}

/// The limits that the codebase index manager was configured with, and
/// the codebases it indexes (none).
pub struct CodebaseIndexManager {
    pub codebase_paths: Vec<String>,
    pub max_indices: Option<usize>,
    pub max_files_repo_limit: usize,
    pub embedding_generation_batch_size: usize,
}

impl CodebaseIndexManager {
    pub open spec fn paths(&self) -> Seq<String> {
        self.codebase_paths@
    }

    pub fn new(
        max_index_count: Option<usize>,
        max_files_repo_limit: usize,
        embedding_generation_batch_size: usize,
    ) -> (r: Self)
        ensures
            r.max_indices == max_index_count,
            r.max_files_repo_limit == max_files_repo_limit,
            r.embedding_generation_batch_size == embedding_generation_batch_size,
            r.paths().len() == 0,
    {
        CodebaseIndexManager {
            codebase_paths: Vec::new(),
            max_indices: max_index_count,
            max_files_repo_limit,
            embedding_generation_batch_size,
        }
    }

    /// The manager that tests start from: no index limit, no file limit,
    /// batches of 100.
    pub fn new_for_test() -> (r: Self)
        ensures
            r.max_indices is None,
            r.max_files_repo_limit == 0,
            r.embedding_generation_batch_size == 100,
            r.paths().len() == 0,
    {
        CodebaseIndexManager {
            codebase_paths: Vec::new(),
            max_indices: None,
            max_files_repo_limit: 0,
            embedding_generation_batch_size: 100,
        }
    }

    pub fn update_max_limits(
        &mut self,
        new_max_indices: Option<usize>,
        new_max_files_per_repo: usize,
        new_embedding_generation_batch_size: usize,
    )
        ensures
            final(self).max_indices == new_max_indices,
            final(self).max_files_repo_limit == new_max_files_per_repo,
            final(self).embedding_generation_batch_size == new_embedding_generation_batch_size,
            final(self).paths() == old(self).paths(),
    {
        self.max_indices = new_max_indices;
        self.max_files_repo_limit = new_max_files_per_repo;
        self.embedding_generation_batch_size = new_embedding_generation_batch_size;
    }

    /// New indices are never created.
    pub fn can_create_new_indices(&self) -> (r: bool)
        ensures
            !r,
    {
        false
    }

    pub fn num_active_indices(&self) -> (r: usize)
        ensures
            r == 0,
    {
        0
    }

    /// The roots of the indexed codebases.
    pub fn get_codebase_paths(&self) -> (r: Vec<String>)
        ensures
            r@ == self.paths(),
    {
        self.codebase_paths.clone()
    }

    /// No codebase has an index status.
    pub fn get_codebase_index_status_for_path(&self, _root_path: &str) -> (r: Option<
        CodebaseIndexStatus,
    >)
        ensures
            r is None,
    {
        None
    }

    /// Retrieval finds no index for any repository.
    pub fn retrieve_relevant_files(&self, _query: String, _repo_path: &str) -> (r: Result<
        RetrievalID,
        RetrieveFileError,
    >)
        ensures
            r matches Err(RetrieveFileError::IndexNotFound),
    {
        Err(RetrieveFileError::IndexNotFound)
    }

    /// Aborting a retrieval always succeeds.
    pub fn abort_retrieval_request(&self, _repo_path: &str, _retrieval_id: RetrievalID) -> (r: Result<
        (),
        anyhow::Error,
    >)
        ensures
            r is Ok,
    {
        Ok(())
    }

    /// An incremental sync is never needed.
    pub fn trigger_incremental_sync_for_path(&mut self, _directory_path: &str) -> (r: Result<
        (),
        anyhow::Error,
    >)
        ensures
            r is Ok,
            final(self).paths() == old(self).paths(),
            final(self).max_indices == old(self).max_indices,
            final(self).max_files_repo_limit == old(self).max_files_repo_limit,
            final(self).embedding_generation_batch_size == old(self).embedding_generation_batch_size,
    {
        Ok(())
    }

    /// No path lies in an indexed codebase.
    pub fn root_path_for_codebase(&self, _path: &str) -> (r: Option<String>)
        ensures
            r is None,
    {
        None
    }
}

} // verus!
