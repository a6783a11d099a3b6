//! Where the snapshots of days are kept, and what to make of what is found
//! there.
//!
//! The store itself is not reached from here. This module names the blobs
//! and decides, from what a read came to, whether there is a snapshot,
//! whether the blob is to be deleted, and whether the read failed.

use vstd::prelude::*;
use vstd::string::StringExecFns;
use crate::error::Error;
use crate::time::{iso_date_text, Date};

verus! {

/// Which collection a snapshot was taken of.
#[derive(Clone, Copy, Debug, PartialEq, Eq, Structural)]
pub enum CacheType {
    Issues,
    Events,
}

impl CacheType {
    /// What [`CacheType::name`] returns.
    pub open spec fn name_text(self) -> Seq<char> {
        match self {
            CacheType::Issues => "issues"@,
            CacheType::Events => "events"@,
        }
    }

    /// The name of the collection as it appears in keys.
    pub fn name(&self) -> (name: &'static str)
        ensures
            name@ == self.name_text(),
    {
        match self {
            CacheType::Issues => "issues",
            CacheType::Events => "events",
        }
    }
}

/// The key of the snapshot of the day numbered `day` for the collection
/// `cache_type`: the day as `YYYY-MM-DD`, a hyphen, and the collection's
/// name.
pub open spec fn cache_key_text(day: int, cache_type: CacheType) -> Seq<char> {
    iso_date_text(day) + "-"@ + cache_type.name_text()
}

/// The path of the file that holds the blob with the key of
/// [`cache_key_text`].
pub open spec fn cache_path_text(day: int, cache_type: CacheType) -> Seq<char> {
    "database/"@ + cache_key_text(day, cache_type) + ".json"@
}

/// The key under which the snapshot of `date` for `cache_type` is kept.
pub fn cache_key(date: &Date, cache_type: CacheType) -> (key: String)
    ensures
        key@ == cache_key_text(date@, cache_type),
{
    let mut key = date.iso_text();
    key.append("-");
    key.append(cache_type.name());
    key
}

/// The path of the file in which the snapshot of `date` for `cache_type` is
/// kept.
pub fn cache_path(date: &Date, cache_type: CacheType) -> (path: String)
    ensures
        path@ == cache_path_text(date@, cache_type),
{
    let key = cache_key(date, cache_type);
    let mut path = "database/".to_owned();
    path.append(key.as_str());
    path.append(".json");
    path
}

/// The snapshots of the two collections for one day have different keys.
pub proof fn lemma_keys_differ_by_type(day: int)
    ensures
        cache_key_text(day, CacheType::Issues) != cache_key_text(day, CacheType::Events),
        cache_path_text(day, CacheType::Issues) != cache_path_text(day, CacheType::Events),
{
    reveal_strlit("issues");
    reveal_strlit("events");
    reveal_strlit("-");
    reveal_strlit("database/");
    let stem = iso_date_text(day) + "-"@;
    let one = cache_key_text(day, CacheType::Issues);
    let other = cache_key_text(day, CacheType::Events);
    assert(one[stem.len() as int] == 'i');
    assert(other[stem.len() as int] == 'e');
    let lead = "database/"@;
    let first = cache_path_text(day, CacheType::Issues);
    let second = cache_path_text(day, CacheType::Events);
    assert(first[(lead.len() + stem.len()) as int] == one[stem.len() as int]);
    assert(second[(lead.len() + stem.len()) as int] == other[stem.len() as int]);
}

/// What reading a blob and decoding it came to.
#[derive(Debug, PartialEq, Eq)]
pub enum Stored<T> {
    /// There is no blob under the key.
    Missing,
    /// The store failed to hand out the blob, with its message.
    Unreadable(String),
    /// There is a blob, but it does not decode.
    Corrupt,
    /// There is a blob, and it holds this value.
    Decoded(T),
}

/// What to make of a read.
#[derive(Debug, PartialEq, Eq)]
pub struct CacheRead<T> {
    /// The value that was kept, if there is one.
    pub value: Option<T>,
    /// Whether the blob is to be deleted, so that the next read finds
    /// nothing instead of the same damage.
    pub discard: bool,
}

/// Decides what a read of a snapshot came to. A missing blob is a miss and
/// no error. A blob that does not decode is a miss too, and is to be
/// deleted. Only a store that fails to hand out a blob that is there is an
/// error.
pub fn read_cache<T>(stored: Stored<T>) -> (read: Result<CacheRead<T>, Error>)
    ensures
        match stored {
            Stored::Missing => read == Ok::<CacheRead<T>, Error>(
                CacheRead { value: None, discard: false },
            ),
            Stored::Unreadable(message) => read == Err::<CacheRead<T>, Error>(
                Error::Transport(message),
            ),
            Stored::Corrupt => read == Ok::<CacheRead<T>, Error>(
                CacheRead { value: None, discard: true },
            ),
            Stored::Decoded(value) => read == Ok::<CacheRead<T>, Error>(
                CacheRead { value: Some(value), discard: false },
            ),
        },
{
    match stored {
        Stored::Missing => Ok(CacheRead { value: None, discard: false }),
        Stored::Unreadable(message) => Err(Error::Transport(message)),
        Stored::Corrupt => Ok(CacheRead { value: None, discard: true }),
        Stored::Decoded(value) => Ok(CacheRead { value: Some(value), discard: false }),
    }
}

} // verus!
