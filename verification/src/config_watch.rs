//! Which events of the file system mean that the settings may have changed.

use crate::text::same_text;
use vstd::prelude::*;

verus! {

/// What happened to a file.
#[derive(Debug, Clone, Copy, PartialEq, Eq, Structural)]
pub enum WatchKind {
    Any,
    Access,
    Create,
    Modify,
    Remove,
    Other,
}

/// Whether an event may have changed what a file holds.
pub fn is_relevant(kind: WatchKind) -> (r: bool)
    ensures
        r == (kind is Create || kind is Modify || kind is Remove),
{
    matches!(kind, WatchKind::Create | WatchKind::Modify | WatchKind::Remove)
}

/// Whether one of the files of an event, by their names where they have one, is called
/// `file_name`. The name is what counts: a file that is replaced keeps it.
pub fn event_touches_config(names: &Vec<Option<String>>, file_name: &str) -> (r: bool)
    ensures
        r == exists|i: int|
            0 <= i < names@.len() && (#[trigger] names@[i]) is Some && names@[i]->0@
                == file_name@,
{
    let mut i: usize = 0;
    while i < names.len()
        invariant
            i <= names.len(),
            forall|k: int|
                0 <= k < i ==> !((#[trigger] names@[k]) is Some && names@[k]->0@ == file_name@),
        decreases names.len() - i,
    {
        match &names[i] {
            Some(n) => if same_text(n.as_str(), file_name) {
                assert(names@[i as int] is Some);
                return true;
            },
            None => {},
        }
        i += 1;
    }
    false
}

/// Whether an event calls for the settings to be read.
pub fn calls_for_reload(kind: WatchKind, names: &Vec<Option<String>>, file_name: &str) -> (r: bool)
    ensures
        r == ((kind is Create || kind is Modify || kind is Remove) && exists|i: int|
            0 <= i < names@.len() && (#[trigger] names@[i]) is Some && names@[i]->0@
                == file_name@),
{
    is_relevant(kind) && event_touches_config(names, file_name)
}

} // verus!
