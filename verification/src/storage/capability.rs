//! Capabilities: secrets that let a bearer change single files.

use vstd::prelude::*;
use vstd::string::*;

use crate::error::StorageError;
use crate::secrets::constant_time_eq;
use crate::storage::tables::{get_text, insert_text, new_texts, remove_text, text_entries};

verus! {

/// Whether a bearer of `capability` may change `id`. No capability means that the caller has been
/// let through already.
pub open spec fn allowed(
    capabilities: Map<Seq<char>, Seq<char>>,
    id: Seq<char>,
    capability: Option<Seq<char>>,
) -> bool {
    match capability {
        Some(c) => capabilities.dom().contains(id) && capabilities[id] == c,
        None => true,
    }
}

/// The capabilities after `id` was stored.
pub open spec fn granted(
    capabilities: Map<Seq<char>, Seq<char>>,
    id: Seq<char>,
    capability: Option<Seq<char>>,
) -> Map<Seq<char>, Seq<char>> {
    match capability {
        Some(c) => capabilities.insert(id, c),
        None => capabilities.remove(id),
    }
}

/// The capabilities after `old_id` became `new_id`.
pub open spec fn moved(
    capabilities: Map<Seq<char>, Seq<char>>,
    old_id: Seq<char>,
    new_id: Seq<char>,
) -> Map<Seq<char>, Seq<char>> {
    if capabilities.dom().contains(old_id) {
        capabilities.remove(old_id).insert(new_id, capabilities[old_id])
    } else {
        capabilities.remove(new_id)
    }
}

/// The capabilities after the first `n` of `ids` were given up.
pub open spec fn without(
    capabilities: Map<Seq<char>, Seq<char>>,
    ids: Seq<String>,
    n: int,
) -> Map<Seq<char>, Seq<char>>
    decreases n,
{
    if n <= 0 {
        capabilities
    } else {
        without(capabilities, ids, n - 1).remove(ids[n - 1]@)
    }
}

pub open spec fn option_view(text: Option<&str>) -> Option<Seq<char>> {
    match text {
        Some(t) => Some(t@),
        None => None,
    }
}

/// The capability of every file that was stored with one.
pub struct Capabilities {
    table: dashmap::DashMap<String, String>,
}

impl View for Capabilities {
    type V = Map<Seq<char>, Seq<char>>;

    closed spec fn view(&self) -> Map<Seq<char>, Seq<char>> {
        text_entries(self.table)
    }
}

impl Capabilities {
    /// No file has a capability.
    pub fn new() -> (r: Capabilities)
        ensures
            r@ == Map::<Seq<char>, Seq<char>>::empty(),
    {
        Capabilities { table: new_texts() }
    }

    /// Tells whether a bearer of `capability` may change `id`.
    pub fn allows(&self, id: &str, capability: Option<&str>) -> (r: bool)
        ensures
            r == allowed(self@, id@, option_view(capability)),
    {
        match capability {
            None => true,
            Some(c) => match get_text(&self.table, id) {
                Some(stored) => constant_time_eq(stored.as_str(), c),
                None => false,
            },
        }
    }

    /// Tells whether a bearer of `capability` may change all of `ids`.
    pub fn allows_all(&self, ids: &Vec<String>, capability: Option<&str>) -> (r: bool)
        ensures
            r == (forall|i: int|
                0 <= i < ids@.len() ==> allowed(
                    self@,
                    #[trigger] ids@[i]@,
                    option_view(capability),
                )),
    {
        let mut i: usize = 0;
        while i < ids.len()
            invariant
                i <= ids@.len(),
                forall|j: int|
                    0 <= j < i ==> allowed(self@, #[trigger] ids@[j]@, option_view(capability)),
            decreases ids@.len() - i,
        {
            if !self.allows(ids[i].as_str(), capability) {
                assert(!allowed(self@, ids@[i as int]@, option_view(capability)));
                return false;
            }
            i = i + 1;
        }
        true
    }

    /// Rejects a bearer of `capability` who may not change all of `ids`.
    pub fn require(&self, ids: &Vec<String>, capability: Option<&str>) -> (r: Result<
        (),
        StorageError,
    >)
        ensures
            r == (if forall|i: int|
                0 <= i < ids@.len() ==> allowed(
                    self@,
                    #[trigger] ids@[i]@,
                    option_view(capability),
                ) {
                Ok::<(), StorageError>(())
            } else {
                Err(StorageError::Forbidden)
            }),
    {
        if self.allows_all(ids, capability) {
            Ok(())
        } else {
            Err(StorageError::Forbidden)
        }
    }

    /// Records the capability that `id` was stored with.
    pub fn grant(&mut self, id: &str, capability: Option<&str>)
        ensures
            final(self)@ == granted(old(self)@, id@, option_view(capability)),
    {
        match capability {
            Some(c) => {
                let _ = insert_text(&mut self.table, id.to_owned(), c.to_owned());
            },
            None => remove_text(&mut self.table, id),
        }
    }

    /// Drops the capability of `id`.
    pub fn forget(&mut self, id: &str)
        ensures
            final(self)@ == old(self)@.remove(id@),
    {
        remove_text(&mut self.table, id);
    }

    /// Drops the capabilities of all of `ids`.
    pub fn forget_all(&mut self, ids: &Vec<String>)
        ensures
            final(self)@ == without(old(self)@, ids@, ids@.len() as int),
    {
        let mut i: usize = 0;
        while i < ids.len()
            invariant
                i <= ids@.len(),
                self@ == without(old(self)@, ids@, i as int),
            decreases ids@.len() - i,
        {
            self.forget(ids[i].as_str());
            i = i + 1;
        }
    }

    /// Records that `old_id` became `new_id`.
    pub fn reassign(&mut self, old_id: &str, new_id: &str)
        ensures
            final(self)@ == moved(old(self)@, old_id@, new_id@),
    {
        match get_text(&self.table, old_id) {
            Some(capability) => {
                remove_text(&mut self.table, old_id);
                let _ = insert_text(&mut self.table, new_id.to_owned(), capability);
            },
            None => remove_text(&mut self.table, new_id),
        }
    }
}

/// A file that was stored with a capability is open to the bearers of exactly that capability, one that
/// was stored without is open to none, and other files are as they were. Who needs no capability is let
/// through everywhere.
pub proof fn capability_is_for_one_file(
    capabilities: Map<Seq<char>, Seq<char>>,
    id: Seq<char>,
    other: Seq<char>,
    capability: Seq<char>,
    presented: Seq<char>,
)
    requires
        other != id,
    ensures
        allowed(capabilities, id, None),
        !allowed(Map::empty(), id, Some(presented)),
        allowed(granted(capabilities, id, Some(capability)), id, Some(presented)) <==> presented
            == capability,
        !allowed(granted(capabilities, id, None), id, Some(presented)),
        allowed(granted(capabilities, id, Some(capability)), other, Some(presented)) <==> allowed(
            capabilities,
            other,
            Some(presented),
        ),
        allowed(granted(capabilities, id, None), other, Some(presented)) <==> allowed(
            capabilities,
            other,
            Some(presented),
        ),
{
}

/// The capability of a file goes where the file goes: after a rename the new ID is open to those to whom
/// the old one was, the old one to none, and every other ID to those to whom it was before.
pub proof fn capability_goes_with_its_file(
    capabilities: Map<Seq<char>, Seq<char>>,
    old_id: Seq<char>,
    new_id: Seq<char>,
    other: Seq<char>,
    presented: Seq<char>,
)
    requires
        other != old_id,
        other != new_id,
    ensures
        ({
            let after = moved(capabilities, old_id, new_id);
            &&& allowed(after, new_id, Some(presented)) <==> allowed(
                capabilities,
                old_id,
                Some(presented),
            )
            &&& old_id != new_id ==> !allowed(after, old_id, Some(presented))
            &&& allowed(after, other, Some(presented)) <==> allowed(
                capabilities,
                other,
                Some(presented),
            )
        }),
{
}

/// Files that gave their capabilities up are open to no bearer; the others are as they were.
pub proof fn given_up_capabilities_open_nothing(
    capabilities: Map<Seq<char>, Seq<char>>,
    ids: Seq<String>,
    n: int,
    id: Seq<char>,
    presented: Seq<char>,
)
    requires
        0 <= n <= ids.len(),
    ensures
        allowed(without(capabilities, ids, n), id, Some(presented)) <==> allowed(
            capabilities,
            id,
            Some(presented),
        ) && forall|i: int| 0 <= i < n ==> (#[trigger] ids[i])@ != id,
    decreases n,
{
    if n > 0 {
        given_up_capabilities_open_nothing(capabilities, ids, n - 1, id, presented);
        assert(ids[n - 1]@ == id || ids[n - 1]@ != id);
    }
}

} // verus!
