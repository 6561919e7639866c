//! Telling the shell's own writes of the settings file from edits made by
//! hand, so that writing the file does not reload it.
use vstd::prelude::*;
use vstd::string::*;

verus! {

/// The hash of `bytes` under std's `DefaultHasher` made by `new`.
pub uninterp spec fn default_hash_of(bytes: Seq<u8>) -> u64;

/// Hashes the byte slice with a `std::collections::hash_map::DefaultHasher`
/// made by `DefaultHasher::new` and returns `finish()`. Its documentation
/// says that every hasher made by `new` is the same, so the result depends
/// on the bytes alone; the algorithm itself is not stated.
#[verifier::external_body]
fn default_hasher_hash(bytes: &[u8]) -> (h: u64)
    ensures
        h == default_hash_of(bytes@),
{
    let mut hasher = std::collections::hash_map::DefaultHasher::new();
    std::hash::Hash::hash(bytes, &mut hasher);
    std::hash::Hasher::finish(&hasher)
}

/// The hash that identifies a version of the settings file's content.
pub fn settings_content_hash(bytes: &[u8]) -> (h: u64)
    ensures
        h == default_hash_of(bytes@),
{
    default_hasher_hash(bytes)
}

/// The hash of the settings the shell last wrote, if it wrote any.
pub struct SelfWriteGuard {
    pub last: Option<u64>,
}

/// Whether a change of the file to `bytes` is reloaded: unless it is what
/// the shell itself last wrote.
pub open spec fn reloads(last: Option<u64>, bytes: Seq<u8>) -> bool {
    last != Some(default_hash_of(bytes))
}

impl SelfWriteGuard {
    /// No write made yet.
    pub fn new() -> (g: Self)
        ensures
            g.last is None,
    {
        SelfWriteGuard { last: None }
    }

    /// Remembers that the shell is writing `bytes` to the settings file.
    pub fn record_write(&mut self, bytes: &[u8])
        ensures
            final(self).last == Some(default_hash_of(bytes@)),
    {
        self.last = Some(settings_content_hash(bytes));
    }

    /// Whether the file, now holding `text`, is to be reloaded (see `reloads`).
    pub fn should_reload(&self, text: &str) -> (r: bool)
        ensures
            r == reloads(self.last, text.spec_bytes()),
    {
        let h = settings_content_hash(text.as_bytes());
        match self.last {
            Some(l) => l != h,
            None => true,
        }
    }
}

/// A file the shell wrote itself is not reloaded, while any other content
/// is, unless it hashes the same.
pub proof fn law_own_write_is_not_reloaded(bytes: Seq<u8>, other: Seq<u8>)
    ensures
        !reloads(Some(default_hash_of(bytes)), bytes),
        default_hash_of(other) != default_hash_of(bytes) ==> reloads(
            Some(default_hash_of(bytes)),
            other,
        ),
        reloads(None, other),
{
}

} // verus!
