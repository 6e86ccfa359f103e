//! The configuration the pipeline runs under, and the scalar values it
//! plants in the store at startup: the SSH key paths that push callbacks
//! read back, and the link prefix written into commit messages.

use crate::store::Store;
use crate::store::StoreError;
use vstd::prelude::*;
use vstd::string::StrSliceExecFns;
use vstd::string::StringExecFns;
use vstd::utf8::encode_utf8;

verus! {

/// The git side of the configuration: the repository, the worktree pool,
/// and the credentials pushes are made with.
pub struct Git {
    /// The user on the remote, typically `git`.
    pub user: String,
    /// Full path to the SSH public key.
    pub public_key: String,
    /// Full path to the SSH private key.
    pub private_key: String,
    /// Full path of the git repository to work with.
    pub repo: String,
    /// Where the worktrees are created.
    pub workdir: String,
    /// How many worktrees work at once.
    pub workers: usize,
}

/// The patch tracker the pipeline serves.
pub struct Patchwork {
    /// Base URL of the tracker, without a trailing path.
    pub url: String,
    /// API token, only needed to post verdicts.
    pub token: Option<String>,
    /// How many series one listing request returns.
    pub page_size: u64,
}

/// What makes a runner start work on a pushed branch.
pub enum Trigger {
    /// The runner reacts to a push on the named remote.
    OnPush { remote: String },
    /// The runner is kicked off by hand, with opaque data.
    Manual { data: String },
}

/// One configured runner.
pub enum Runner {
    GitHub { trigger: Trigger, url: String, token: Option<String> },
}

/// Everything the pipeline needs to run.
pub struct Config {
    /// The tracker project's link name.
    pub name: String,
    pub git: Git,
    pub patchwork: Patchwork,
    pub runners: Vec<Runner>,
}

/// The worktree pool size used when the configuration names none.
pub fn default_workers() -> (r: usize)
    ensures
        r == 1,
{
    1
}

/// The series listing page size used when the configuration names none.
pub fn default_page_size() -> (r: u64)
    ensures
        r == 50,
{
    50
}

/// The prefix of the series link written into each commit message: the
/// tracker's project listing, filtered by series.
pub fn series_link_prefix(url: &str, name: &str) -> (r: String)
    ensures
        r@ == url@ + "/project/"@ + name@ + "/list/?series="@,
{
    let mut s = String::from_str(url);
    s.append("/project/");
    s.append(name);
    s.append("/list/?series=");
    proof {
        assert(s@ =~= url@ + "/project/"@ + name@ + "/list/?series="@);
    }
    s
}

/// Plant the configuration-derived scalars in the store: both SSH key
/// paths, under the keys the push callbacks read, and the series link
/// prefix written into commit messages.
pub fn populate_database(store: &mut Store, config: &Config) -> (r: Result<(), StoreError>)
    ensures
        r is Ok ==> final(store).scalars() == old(store).scalars().insert(
            encode_utf8("ssh private key path"@),
            encode_utf8(config.git.private_key@),
        ).insert(encode_utf8("ssh public key path"@), encode_utf8(config.git.public_key@)).insert(
            encode_utf8("patchwork series link prefix"@),
            encode_utf8(
                config.patchwork.url@ + "/project/"@ + config.name@ + "/list/?series="@,
            ),
        ),
{
    let key1 = "ssh private key path".as_bytes_vec();
    let val1 = config.git.private_key.as_str().as_bytes_vec();
    match store.put_scalar(key1.as_slice(), val1) {
        Ok(()) => {},
        Err(e) => {
            return Err(e);
        },
    }
    let key2 = "ssh public key path".as_bytes_vec();
    let val2 = config.git.public_key.as_str().as_bytes_vec();
    match store.put_scalar(key2.as_slice(), val2) {
        Ok(()) => {},
        Err(e) => {
            return Err(e);
        },
    }
    let prefix = series_link_prefix(config.patchwork.url.as_str(), config.name.as_str());
    let key3 = "patchwork series link prefix".as_bytes_vec();
    let val3 = prefix.as_str().as_bytes_vec();
    match store.put_scalar(key3.as_slice(), val3) {
        Ok(()) => Ok(()),
        Err(e) => Err(e),
    }
}

} // verus!
