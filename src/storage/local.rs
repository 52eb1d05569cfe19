use vstd::prelude::*;

use crate::config::LocalStorageConfig;
use crate::storage::{BMCLAPIFile, RemoteFile, Storage, StorageState};
use crate::utils::{join_path, joined};

verus! {

/// A backend rooted at a directory of the local filesystem. Objects lie
/// directly under `cache_dir`, and a listing is a walk of that directory.
pub struct LocalStorage {
    pub storage_config: LocalStorageConfig,
    pub state: StorageState,
}

impl LocalStorage {
    pub fn new(storage_config: LocalStorageConfig) -> (r: LocalStorage)
        ensures
            r.storage_config == storage_config,
            r.state.wf(),
            r.state.files@ == Map::<Seq<char>, (Seq<char>, nat)>::empty(),
            r.state.empty_files@.len() == 0,
    {
        LocalStorage { storage_config, state: StorageState::new() }
    }
}

impl Storage for LocalStorage {
    open spec fn state_of(&self) -> StorageState {
        self.state
    }

    open spec fn base(&self) -> Seq<char> {
        self.storage_config.cache_dir@
    }

    open spec fn absolute(&self, path: Seq<char>) -> Seq<char> {
        joined(self.storage_config.cache_dir@, path)
    }

    fn base_path(&self) -> (r: String) {
        self.storage_config.cache_dir.clone()
    }

    fn object_path(&self, path: &str) -> (r: String) {
        join_path(self.storage_config.cache_dir.as_str(), path)
    }

    fn get_absolute_path(&self, path: &str) -> (r: String) {
        join_path(self.storage_config.cache_dir.as_str(), path)
    }

    fn record_write(&mut self, content_len: usize, file: &BMCLAPIFile) -> (store: bool) {
        self.state.record_write(content_len, file)
    }

    fn confirm_write(&mut self, file: &BMCLAPIFile, size: usize) {
        self.state.confirm_write(file, size)
    }

    fn check_missing_files(&mut self, files: Vec<BMCLAPIFile>, listing: &Vec<RemoteFile>) -> (r:
        Vec<BMCLAPIFile>) {
        self.state.check_missing_files(files, listing)
    }

    fn cleanup_unused_files(&mut self, files: &Vec<BMCLAPIFile>, listing: &Vec<RemoteFile>) -> (r:
        Vec<String>) {
        self.state.cleanup_unused_files(files, listing)
    }
}

} // verus!
