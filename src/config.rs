use vstd::prelude::*;

verus! {

/// Settings of a backend on the local filesystem.
#[derive(Clone, Debug)]
pub struct LocalStorageConfig {
    pub cache_dir: String,
}

/// The administrative base path of a WebDAV endpoint when none is set.
pub fn dav_basepath_default() -> (r: String)
    ensures
        r@ == seq!['/', 'd', 'a', 'v'],
{
    proof {
        reveal_strlit("/dav");
    }
    String::from_str("/dav")
}

/// Settings of a backend on a WebDAV endpoint. Listing, uploads and
/// deletions go under `dav_basepath` joined with `download_basepath`.
#[derive(Clone, Debug)]
pub struct WebdavStorageConfig {
    pub endpoint: String,
    pub dav_basepath: String,
    pub download_basepath: String,
    pub measure_basepath: Option<String>,
    pub username: String,
    pub password: String,
}

/// The backend to use, with its settings.
#[derive(Clone, Debug)]
pub enum StorageType {
    Local(LocalStorageConfig),
    Webdav(WebdavStorageConfig),
}

/// The name of a backend kind, as configuration files write it.
pub open spec fn storage_type_name(t: StorageType) -> Seq<char> {
    match t {
        StorageType::Local(_) => seq!['l', 'o', 'c', 'a', 'l'],
        StorageType::Webdav(_) => seq!['w', 'e', 'b', 'd', 'a', 'v'],
    }
}

impl StorageType {
    /// The name of this kind of backend: `local` or `webdav`.
    pub fn name(&self) -> (r: String)
        ensures
            r@ == storage_type_name(*self),
    {
        match self {
            StorageType::Local(_) => {
                proof {
                    reveal_strlit("local");
                }
                String::from_str("local")
            },
            StorageType::Webdav(_) => {
                proof {
                    reveal_strlit("webdav");
                }
                String::from_str("webdav")
            },
        }
    }
}

/// The hub this node reports to when none is set.
pub fn bmclapi_default() -> (r: String)
    ensures
        r@ == seq![
            'h', 't', 't', 'p', 's', ':', '/', '/', 'o', 'p', 'e', 'n', 'b', 'm', 'c', 'l', 'a',
            'p', 'i', '.', 'b', 'a', 'n', 'g', 'b', 'a', 'n', 'g', '9', '3', '.', 'c', 'o', 'm',
        ],
{
    proof {
        reveal_strlit("https://openbmclapi.bangbang93.com");
    }
    String::from_str("https://openbmclapi.bangbang93.com")
}

/// The node's settings: the hub's address, the cluster's identity and the
/// backends to serve from.
#[derive(Clone, Debug)]
pub struct Config {
    pub bmclapi: String,
    pub cluster_id: String,
    pub cluster_secret: String,
    pub storage: Vec<StorageType>,
}

} // verus!
