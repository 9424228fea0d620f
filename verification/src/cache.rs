//! The filesystem cache of inputs: the names of its files, and the order in which they are tried.

use vstd::prelude::*;

use crate::input::Block;
use crate::primitives::{keccak256_digest, B256};
use crate::text::{digest_string, digest_text, law_digest_text_injective};

verus! {

/// A version of the format in which inputs are cached.
#[derive(Clone, Copy, Debug, PartialEq, Eq, Structural)]
pub enum CacheFormat {
    Current,
    /// The format that did not have the signers.
    LegacyV1,
}

/// The name of a cache file.
pub open spec fn cache_file(format: CacheFormat, hash: B256) -> Seq<char> {
    match format {
        CacheFormat::Current => "input_"@ + digest_text(hash) + ".v2.json"@,
        CacheFormat::LegacyV1 => "input_"@ + digest_text(hash) + ".json"@,
    }
}

impl CacheFormat {
    /// The name of the file that holds the input for the block with this hash.
    pub fn file_name(&self, hash: &B256) -> (r: String)
        ensures
            r@ == cache_file(*self, *hash),
            match self {
                CacheFormat::Current => r@ == "input_"@ + digest_text(*hash) + ".v2.json"@,
                CacheFormat::LegacyV1 => r@ == "input_"@ + digest_text(*hash) + ".json"@,
            },
    {
        let mut name = String::from_str("input_");
        let digest = digest_string(hash);
        name.append(digest.as_str());
        match self {
            CacheFormat::Current => {
                name.append(".v2.json");
            },
            CacheFormat::LegacyV1 => {
                name.append(".json");
            },
        }
        name
    }

    /// The format that is tried where a file in this one is missing.
    pub open spec fn spec_next(&self) -> Option<CacheFormat> {
        match self {
            CacheFormat::Current => Some(CacheFormat::LegacyV1),
            CacheFormat::LegacyV1 => None,
        }
    }
}

/// The name under which the input for a block is saved: that of the current format, for the hash
/// of the block.
pub fn save_name(block: &Block) -> (r: String)
    ensures
        r@ == cache_file(CacheFormat::Current, block.spec_hash()),
        r@ == "input_"@ + digest_text(keccak256_digest(block.header@)) + ".v2.json"@,
{
    let hash = block.hash_slow();
    CacheFormat::Current.file_name(&hash)
}

/// Each format and each block has a file of its own.
pub proof fn law_cache_files_distinct(f: CacheFormat, a: B256, g: CacheFormat, b: B256)
    requires
        cache_file(f, a) == cache_file(g, b),
    ensures
        f == g,
        a == b,
{
    reveal_strlit("input_");
    reveal_strlit(".v2.json");
    reveal_strlit(".json");
    assert(cache_file(f, a).len() == 6 + 66 + (if f == CacheFormat::Current {
        8int
    } else {
        5int
    }));
    assert(cache_file(g, b).len() == 6 + 66 + (if g == CacheFormat::Current {
        8int
    } else {
        5int
    }));
    assert(cache_file(f, a).subrange(6, 72) =~= digest_text(a));
    assert(cache_file(g, b).subrange(6, 72) =~= digest_text(b));
    law_digest_text_injective(a, b);
}

/// What happened to the last action of a lookup.
pub enum CacheEvent<I, E> {
    /// There is no file in the format that was asked for.
    Missing,
    /// The file in the format that was asked for holds this input.
    Loaded(I),
    /// The file could not be read.
    LoadFailed(E),
    /// The input was saved, or could not be.
    Saved(Result<(), E>),
}

/// What a lookup does next.
pub enum CacheAction<I, E> {
    /// Load the file for the block with this hash in this format, if there is one.
    Load { hash: B256, format: CacheFormat },
    /// Save the input that the lookup holds.
    Save,
    /// The lookup is over: this is what the cache holds.
    Finish(Option<I>),
    /// The lookup failed.
    Fail(E),
    /// The event does not belong to the action before it.
    Misplaced,
}

/// A lookup of an input in the cache.
pub enum CacheLookup<I> {
    /// The file for the block with this hash in this format was asked for.
    Probing { hash: B256, format: CacheFormat },
    /// This input was found in an older format and is being saved in the current one.
    Migrating(I),
    Over,
}

/// How the lookup of the input for a block begins: with the file in the current format.
pub open spec fn lookup_start<I, E>(hash: B256) -> (CacheLookup<I>, CacheAction<I, E>) {
    (
        CacheLookup::Probing { hash, format: CacheFormat::Current },
        CacheAction::Load { hash, format: CacheFormat::Current },
    )
}

/// One step of a lookup. The current format is tried first, then the older ones, all for the same
/// block; what is found in an older one is saved in the current one, and handed out whether or not
/// that succeeds.
pub open spec fn lookup_step<I, E>(lookup: CacheLookup<I>, event: CacheEvent<I, E>) -> (
    CacheLookup<I>,
    CacheAction<I, E>,
) {
    match (lookup, event) {
        (CacheLookup::Probing { hash, format }, CacheEvent::Missing) => match format.spec_next() {
            Some(next) => (
                CacheLookup::Probing { hash, format: next },
                CacheAction::Load { hash, format: next },
            ),
            None => (CacheLookup::Over, CacheAction::Finish(None)),
        },
        (CacheLookup::Probing { format, .. }, CacheEvent::Loaded(input)) => if format
            == CacheFormat::Current {
            (CacheLookup::Over, CacheAction::Finish(Some(input)))
        } else {
            (CacheLookup::Migrating(input), CacheAction::Save)
        },
        (CacheLookup::Probing { .. }, CacheEvent::LoadFailed(error)) => (
            CacheLookup::Over,
            CacheAction::Fail(error),
        ),
        (CacheLookup::Migrating(input), CacheEvent::Saved(_)) => (
            CacheLookup::Over,
            CacheAction::Finish(Some(input)),
        ),
        (_, _) => (CacheLookup::Over, CacheAction::Misplaced),
    }
}

impl<I> CacheLookup<I> {
    /// Starts the lookup of the input for a block: the first action is to load its file in the
    /// current format.
    pub fn start<E>(hash: B256) -> (r: (CacheLookup<I>, CacheAction<I, E>))
        ensures
            r == lookup_start::<I, E>(hash),
            r.0 == (CacheLookup::<I>::Probing { hash, format: CacheFormat::Current }),
            r.1 == (CacheAction::<I, E>::Load { hash, format: CacheFormat::Current }),
    {
        (
            CacheLookup::Probing { hash, format: CacheFormat::Current },
            CacheAction::Load { hash, format: CacheFormat::Current },
        )
    }

    /// The input to save, where the last action was to save one.
    pub fn to_save(&self) -> (r: Option<&I>)
        ensures
            match self {
                CacheLookup::Migrating(input) => r == Some(input),
                _ => r is None,
            },
    {
        match self {
            CacheLookup::Migrating(input) => Some(input),
            _ => None,
        }
    }

    /// Gets the next action, given what happened to the one before it.
    pub fn step<E>(self, event: CacheEvent<I, E>) -> (r: (CacheLookup<I>, CacheAction<I, E>))
        ensures
            r == lookup_step(self, event),
    {
        match self {
            CacheLookup::Probing { hash, format } => match event {
                CacheEvent::Missing => match format {
                    CacheFormat::Current => (
                        CacheLookup::Probing { hash, format: CacheFormat::LegacyV1 },
                        CacheAction::Load { hash, format: CacheFormat::LegacyV1 },
                    ),
                    CacheFormat::LegacyV1 => (CacheLookup::Over, CacheAction::Finish(None)),
                },
                CacheEvent::Loaded(input) => match format {
                    CacheFormat::Current => (CacheLookup::Over, CacheAction::Finish(Some(input))),
                    CacheFormat::LegacyV1 => (CacheLookup::Migrating(input), CacheAction::Save),
                },
                CacheEvent::LoadFailed(error) => (CacheLookup::Over, CacheAction::Fail(error)),
                CacheEvent::Saved(_) => (CacheLookup::Over, CacheAction::Misplaced),
            },
            CacheLookup::Migrating(input) => match event {
                CacheEvent::Saved(_) => (CacheLookup::Over, CacheAction::Finish(Some(input))),
                _ => (CacheLookup::Over, CacheAction::Misplaced),
            },
            CacheLookup::Over => (CacheLookup::Over, CacheAction::Misplaced),
        }
    }
}

/// The files of a block are named after its hash, as it is printed.
pub proof fn law_cache_file_names(hash: B256)
    ensures
        cache_file(CacheFormat::Current, hash) == "input_"@ + digest_text(hash) + ".v2.json"@,
        cache_file(CacheFormat::LegacyV1, hash) == "input_"@ + digest_text(hash) + ".json"@,
{
}

/// A lookup begins with the file of its block in the current format.
pub proof fn law_lookup_begins<I, E>(hash: B256)
    ensures
        lookup_start::<I, E>(hash).0 == (CacheLookup::<I>::Probing {
            hash,
            format: CacheFormat::Current,
        }),
        lookup_start::<I, E>(hash).1 == (CacheAction::<I, E>::Load {
            hash,
            format: CacheFormat::Current,
        }),
{
}

/// A file that is there but cannot be read fails the lookup: it is neither skipped nor taken for a
/// missing one.
pub proof fn law_failed_load_fails_lookup<I, E>(hash: B256, format: CacheFormat, error: E)
    ensures
        lookup_step::<I, E>(
            CacheLookup::Probing { hash, format },
            CacheEvent::LoadFailed(error),
        ) == (CacheLookup::<I>::Over, CacheAction::<I, E>::Fail(error)),
{
}

/// A missing file leads from the current format to the older one, for the same block, and from there
/// to the end; a file that is there is handed out, from the older format after it was saved.
pub proof fn law_lookup_course<I, E>(hash: B256, input: I, saved: Result<(), E>)
    ensures
        lookup_step::<I, E>(
            CacheLookup::Probing { hash, format: CacheFormat::Current },
            CacheEvent::Missing,
        ) == (
            CacheLookup::<I>::Probing { hash, format: CacheFormat::LegacyV1 },
            CacheAction::<I, E>::Load { hash, format: CacheFormat::LegacyV1 },
        ),
        lookup_step::<I, E>(
            CacheLookup::Probing { hash, format: CacheFormat::LegacyV1 },
            CacheEvent::Missing,
        ) == (CacheLookup::<I>::Over, CacheAction::<I, E>::Finish(None)),
        lookup_step::<I, E>(
            CacheLookup::Probing { hash, format: CacheFormat::Current },
            CacheEvent::Loaded(input),
        ) == (CacheLookup::<I>::Over, CacheAction::<I, E>::Finish(Some(input))),
        lookup_step::<I, E>(
            CacheLookup::Probing { hash, format: CacheFormat::LegacyV1 },
            CacheEvent::Loaded(input),
        ) == (CacheLookup::<I>::Migrating(input), CacheAction::<I, E>::Save),
        lookup_step::<I, E>(CacheLookup::Migrating(input), CacheEvent::Saved(saved)) == (
            CacheLookup::<I>::Over,
            CacheAction::<I, E>::Finish(Some(input)),
        ),
{
}

/// What is found in the current format is handed out as it is, and nothing is saved.
pub proof fn law_current_hit<I, E>(hash: B256, input: I)
    ensures
        lookup_step::<I, E>(lookup_start::<I, E>(hash).0, CacheEvent::Loaded(input)).1
            == CacheAction::<I, E>::Finish(Some(input)),
{
}

/// What is found in an older format is saved in the current one and handed out, whether or not it
/// could be saved.
pub proof fn law_legacy_hit_is_migrated<I, E>(hash: B256, input: I, saved: Result<(), E>)
    ensures
        ({
            let (second, load) = lookup_step::<I, E>(
                lookup_start::<I, E>(hash).0,
                CacheEvent::Missing,
            );
            let (third, save) = lookup_step::<I, E>(second, CacheEvent::Loaded(input));
            &&& load == (CacheAction::<I, E>::Load { hash, format: CacheFormat::LegacyV1 })
            &&& save == CacheAction::<I, E>::Save
            &&& third == CacheLookup::Migrating(input)
            &&& lookup_step(third, CacheEvent::Saved(saved)).1 == CacheAction::<I, E>::Finish(
                Some(input),
            )
        }),
{
}

/// Where no format has a file, the cache holds nothing.
pub proof fn law_miss<I, E>(hash: B256)
    ensures
        lookup_step::<I, E>(
            lookup_step::<I, E>(lookup_start::<I, E>(hash).0, CacheEvent::Missing).0,
            CacheEvent::Missing,
        ).1 == CacheAction::<I, E>::Finish(None),
{
}

/// A lookup stays with its block: every file that it asks for is one of the block it began with.
pub proof fn law_lookup_keeps_block<I, E>(
    hash: B256,
    format: CacheFormat,
    event: CacheEvent<I, E>,
)
    ensures
        ({
            let (next, action) = lookup_step(CacheLookup::<I>::Probing { hash, format }, event);
            &&& next matches CacheLookup::Probing { hash: probed, .. } ==> probed == hash
            &&& action matches CacheAction::Load { hash: loaded, .. } ==> loaded == hash
        }),
{
}

/// How many steps a lookup can still take.
pub open spec fn lookup_rank<I>(lookup: CacheLookup<I>) -> nat {
    match lookup {
        CacheLookup::Probing { format: CacheFormat::Current, .. } => 3,
        CacheLookup::Probing { format: CacheFormat::LegacyV1, .. } => 2,
        CacheLookup::Migrating(_) => 1,
        CacheLookup::Over => 0,
    }
}

/// A lookup ends: every step brings it closer to its end, and only a lookup that goes on has
/// something left to do.
pub proof fn law_lookup_ends<I, E>(lookup: CacheLookup<I>, event: CacheEvent<I, E>)
    ensures
        ({
            let (next, action) = lookup_step(lookup, event);
            &&& !(lookup is Over) ==> lookup_rank(next) < lookup_rank(lookup)
            &&& next is Over <==> !(action is Load || action is Save)
        }),
{
}

} // verus!
