use vstd::prelude::*;

use crate::codec::{spec_decode, triples_of};
use crate::mapping::Mapping;

verus! {

/// How registration state survives the daemon's lifetime: never persisted;
/// persisted on every mutation but never auto-started at boot; or persisted
/// and every registered directory started again at boot.
#[derive(Clone, Copy, Debug, PartialEq, Eq, Structural)]
pub enum MappingStatusStrategy {
    NoSave,
    Save,
    Continue,
}

/// Daemon-wide settings.  A malformed configuration at startup is fatal;
/// parsing the configuration file is the caller's, which hands the values
/// in here.
pub struct Config {
    pub mapping_state_path: String,
    pub mapping_status_strategy: MappingStatusStrategy,
}

/// The table the daemon boots with, and whether the snapshot was corrupt.
/// With `NoSave` the snapshot is never read.  A missing snapshot file
/// (`None`) is no error: an empty table is used and the caller creates the
/// file.  A malformed snapshot falls back to an empty table with a warning
/// — never fatally, the daemon must still start.
pub fn mapping_from_snapshot(strategy: MappingStatusStrategy, snapshot: Option<&Vec<u8>>) -> (r: (
    Mapping,
    bool,
))
    ensures
        r.0.wf(),
        strategy == MappingStatusStrategy::NoSave ==> r.0@ == Map::<
            Seq<char>,
            crate::mapping::HandlerMappingView,
        >::empty() && !r.1,
        strategy != MappingStatusStrategy::NoSave ==> match snapshot {
            None => r.0@ == Map::<Seq<char>, crate::mapping::HandlerMappingView>::empty() && !r.1,
            Some(bytes) => match spec_decode(bytes@) {
                Some(ts) => {
                    &&& !r.1
                    &&& triples_of(r.0.directory_mapping@) == ts
                    &&& forall|j: int|
                        0 <= j < r.0.directory_mapping@.len()
                            ==> !(#[trigger] r.0.directory_mapping@[j]).1.running
                },
                None => r.0@ == Map::<Seq<char>, crate::mapping::HandlerMappingView>::empty()
                    && r.1,
            },
        },
{
    if matches!(strategy, MappingStatusStrategy::NoSave) {
        return (Mapping::new(), false);
    }
    match snapshot {
        None => (Mapping::new(), false),
        Some(bytes) => match Mapping::from_bytes(bytes) {
            Ok(m) => (m, false),
            Err(_) => (Mapping::new(), true),
        },
    }
}

} // verus!
