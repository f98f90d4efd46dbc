//! The profile collection and its operations: list, find by username, get
//! and put by identifier, and the scan-based uniqueness protocol that runs
//! before every write.
//!
//! The collection is a sequence of (identifier, node) entries in
//! enumeration order, with identifiers unique. Nodes are materialized by an
//! idempotent get-or-create: reading an identifier with no prior document
//! creates an empty draft node as a side effect.

use vstd::prelude::*;

use crate::codec::decode_node;
use crate::codec::encode_node;
use crate::node::empty_node;
use crate::node::ProfileNode;
use crate::node::ProfileNodeModel;
use crate::profile::Profile;
use crate::profile::ProfileError;
use crate::profile::ProfileModel;
use crate::value::slot_str;
use crate::value::Value;

verus! {

/// The model of the whole collection: identifier and node of each entry,
/// in store enumeration order.
pub type StoreModel = Seq<(Seq<char>, ProfileNodeModel)>;

/// Identifiers name at most one node each.
pub open spec fn ids_unique(s: StoreModel) -> bool {
    forall|i: int, j: int| 0 <= i < j < s.len() ==> s[i].0 != s[j].0
}

/// Whether some entry already carries this identifier.
pub open spec fn has_id(s: StoreModel, id: Seq<char>) -> bool {
    exists|i: int| 0 <= i < s.len() && s[i].0 == id
}

/// The index of the entry carrying this identifier (meaningful only under
/// [`has_id`]; unique under [`ids_unique`]).
pub open spec fn id_index(s: StoreModel, id: Seq<char>) -> int {
    choose|i: int| 0 <= i < s.len() && s[i].0 == id
}

/// The document stored under an identifier; a never-written identifier
/// reads as the empty node it would be materialized as.
pub open spec fn node_at(s: StoreModel, id: Seq<char>) -> ProfileNodeModel {
    if has_id(s, id) {
        s[id_index(s, id)].1
    } else {
        empty_node()
    }
}

/// The collection after an idempotent get-or-create of an identifier: an
/// existing entry is left alone, a missing one is appended empty.
pub open spec fn spec_get_or_init(s: StoreModel, id: Seq<char>) -> StoreModel {
    if has_id(s, id) {
        s
    } else {
        s.push((id, empty_node()))
    }
}

/// The collection with the node under `id` replaced by `n` (appended if the
/// identifier is new).
pub open spec fn store_with(s: StoreModel, id: Seq<char>, n: ProfileNodeModel) -> StoreModel {
    if has_id(s, id) {
        s.update(id_index(s, id), (id, n))
    } else {
        s.push((id, n))
    }
}

/// The uniqueness protocol's answer: a candidate username is taken when
/// some entry under a *different* identifier already stores it in its
/// username slot. An entry under the candidate's own identifier never
/// conflicts, and a candidate without a username never conflicts at all.
pub open spec fn username_taken(s: StoreModel, id: Seq<char>, username: Option<Seq<char>>) -> bool {
    exists|i: int|
        0 <= i < s.len() && s[i].0 != id && username is Some
            && slot_str(s[i].1.username) == username
}

/// What a write of `p` under `id` does to the collection: nothing when the
/// username is taken by another profile, a full replace of the document
/// otherwise.
pub open spec fn spec_put(s: StoreModel, id: Seq<char>, p: ProfileModel) -> Option<StoreModel> {
    if username_taken(s, id, p.username) {
        None
    } else {
        Some(store_with(s, id, encode_node(p)))
    }
}

/// What listing the collection yields: every document decoded in
/// enumeration order with the drafts (no username) filtered out, or nothing
/// when some document fails to decode.
pub open spec fn spec_list(s: StoreModel) -> Option<Seq<ProfileModel>>
    decreases s.len(),
{
    if s.len() == 0 {
        Some(Seq::empty())
    } else {
        match (spec_list(s.drop_last()), decode_node(s.last().1)) {
            (Some(acc), Some(p)) => if p.username is Some {
                Some(acc.push(p))
            } else {
                Some(acc)
            },
            _ => None,
        }
    }
}

/// The first entry (in enumeration order) whose username slot stores the
/// queried string, if any.
pub open spec fn spec_find(s: StoreModel, username: Seq<char>) -> Option<ProfileNodeModel>
    decreases s.len(),
{
    if s.len() == 0 {
        None
    } else if slot_str(s[0].1.username) == Some(username) {
        Some(s[0].1)
    } else {
        spec_find(s.drop_first(), username)
    }
}

/// Under unique identifiers, any entry holding `id` is the entry
/// [`id_index`] picks.
pub proof fn lemma_id_index_agrees(s: StoreModel, id: Seq<char>, i: int)
    requires
        ids_unique(s),
        0 <= i < s.len(),
        s[i].0 == id,
    ensures
        has_id(s, id),
        id_index(s, id) == i,
{
    assert(has_id(s, id));
    let j = id_index(s, id);
    assert(0 <= j < s.len() && s[j].0 == id);
    if i < j {
        assert(s[i].0 != s[j].0);
    } else if j < i {
        assert(s[j].0 != s[i].0);
    }
}

/// A decode failure anywhere in a prefix fails the listing of the whole
/// collection.
pub proof fn lemma_spec_list_none_extends(s: StoreModel, i: int)
    requires
        0 <= i <= s.len(),
        spec_list(s.take(i)) is None,
    ensures
        spec_list(s) is None,
    decreases s.len() - i,
{
    if i == s.len() {
        assert(s.take(i) =~= s);
    } else {
        assert(s.take(i + 1).drop_last() =~= s.take(i));
        assert(spec_list(s.take(i + 1)) is None);
        lemma_spec_list_none_extends(s, i + 1);
    }
}

/// The profile collection, as a service sees it: a shared map node whose
/// children are the profile documents, keyed by opaque identifiers.
pub struct ProfileStore {
    entries: Vec<(String, ProfileNode)>,
}

impl View for ProfileStore {
    type V = StoreModel;

    closed spec fn view(&self) -> StoreModel {
        self.entries@.map_values(|e: (String, ProfileNode)| (e.0@, e.1@))
    }
}

impl ProfileStore {
    /// The collection is well-formed when no identifier names two entries;
    /// every operation preserves this.
    pub open spec fn wf(&self) -> bool {
        ids_unique(self@)
    }

    /// An empty collection.
    pub fn new() -> (s: ProfileStore)
        ensures
            s@ == Seq::<(Seq<char>, ProfileNodeModel)>::empty(),
            s.wf(),
    {
        let s = ProfileStore { entries: Vec::new() };
        proof {
            assert(s@ =~= Seq::<(Seq<char>, ProfileNodeModel)>::empty());
        }
        s
    }

    /// How many documents the collection holds, drafts included.
    pub fn node_count(&self) -> (n: usize)
        ensures
            n == self@.len(),
    {
        self.entries.len()
    }

    /// Idempotent get-or-create of the entry under `id`: returns its index,
    /// appending a fresh empty node first when the identifier is new.
    fn get_or_init_index(&mut self, id: &String) -> (idx: usize)
        requires
            old(self).wf(),
        ensures
            final(self).wf(),
            final(self)@ == spec_get_or_init(old(self)@, id@),
            idx < final(self)@.len(),
            final(self)@[idx as int].0 == id@,
            idx as int == id_index(final(self)@, id@),
            has_id(final(self)@, id@),
    {
        let ghost s0 = self@;
        let n = self.entries.len();
        let mut i: usize = 0;
        while i < n
            invariant
                n == self.entries.len(),
                self@ == s0,
                self.wf(),
                i <= n,
                forall|j: int| 0 <= j < i ==> s0[j].0 != id@,
            decreases n - i,
        {
            if self.entries[i].0 == *id {
                proof {
                    lemma_id_index_agrees(s0, id@, i as int);
                }
                return i;
            }
            i += 1;
        }
        proof {
            assert(!has_id(s0, id@));
        }
        self.entries.push((id.clone(), ProfileNode::new_empty()));
        proof {
            assert(self@ =~= s0.push((id@, empty_node())));
            assert(self.wf()) by {
                assert forall|a: int, b: int| 0 <= a < b < self@.len() implies self@[a].0
                    != self@[b].0 by {
                    if b < s0.len() {
                        assert(s0[a].0 != s0[b].0);
                    } else {
                        assert(self@[b].0 == id@);
                        assert(s0[a].0 != id@);
                    }
                }
            }
            lemma_id_index_agrees(self@, id@, s0.len() as int);
        }
        self.entries.len() - 1
    }

    /// Stores a raw document under an identifier, bypassing projection and
    /// the uniqueness protocol. The collection is shared and schema-less:
    /// nothing stops another writer from putting arbitrary children under a
    /// profile's node, and the decoding operations must face what it left.
    pub fn set_node(&mut self, id: &String, node: ProfileNode)
        requires
            old(self).wf(),
        ensures
            final(self).wf(),
            final(self)@ == store_with(old(self)@, id@, node@),
    {
        let ghost s0 = self@;
        let ghost nm = node@;
        let idx = self.get_or_init_index(id);
        let ghost s1 = self@;
        let entry = (id.clone(), node);
        self.entries[idx] = entry;
        proof {
            assert(self@ =~= s1.update(idx as int, (id@, nm)));
            assert(self.wf()) by {
                assert forall|a: int, b: int| 0 <= a < b < self@.len() implies self@[a].0
                    != self@[b].0 by {
                    assert(self@[a].0 == s1[a].0);
                    assert(self@[b].0 == s1[b].0);
                    assert(ids_unique(s1));
                }
            }
            if has_id(s0, id@) {
                assert(s1 == s0);
                assert(self@ =~= store_with(s0, id@, nm));
            } else {
                assert(s1 == s0.push((id@, empty_node())));
                assert(idx as int == s0.len()) by {
                    lemma_id_index_agrees(s1, id@, s0.len() as int);
                }
                assert(self@ =~= s0.push((id@, nm)));
                assert(self@ =~= store_with(s0, id@, nm));
            }
        }
    }

    /// Reads the document under an identifier, materializing an empty draft
    /// node first when none exists — a read is not read-only at the storage
    /// layer. Fails only when the stored document does not decode.
    pub fn get_profile(&mut self, id: &String) -> (r: Result<Profile, ProfileError>)
        requires
            old(self).wf(),
        ensures
            final(self).wf(),
            final(self)@ == spec_get_or_init(old(self)@, id@),
            match r {
                Ok(p) => decode_node(node_at(final(self)@, id@)) == Some(p@),
                Err(e) => {
                    &&& e == ProfileError::StructuralDecodeError
                    &&& decode_node(node_at(final(self)@, id@)) is None
                },
            },
    {
        let idx = self.get_or_init_index(id);
        proof {
            assert(node_at(self@, id@) == self@[idx as int].1);
        }
        match Profile::from_node(&self.entries[idx].1) {
            Ok(p) => Ok(p),
            Err(_) => Err(ProfileError::StructuralDecodeError),
        }
    }

    /// Writes a profile under an identifier: first the uniqueness scan over
    /// every other entry's username slot, then — only if no other profile
    /// claims the proposed username — an idempotent get-or-create of the
    /// node and a full replace of its document. On conflict the collection
    /// is left exactly as it was.
    pub fn put_profile(&mut self, id: &String, profile: &Profile) -> (r: Result<
        (),
        ProfileError,
    >)
        requires
            old(self).wf(),
        ensures
            final(self).wf(),
            match r {
                Ok(u) => spec_put(old(self)@, id@, profile@) == Some(final(self)@),
                Err(e) => {
                    &&& e == ProfileError::UsernameTaken
                    &&& spec_put(old(self)@, id@, profile@) is None
                    &&& final(self)@ == old(self)@
                },
            },
    {
        let ghost s0 = self@;
        let n = self.entries.len();
        let mut i: usize = 0;
        while i < n
            invariant
                n == self.entries.len(),
                self@ == s0,
                self.wf(),
                i <= n,
                forall|j: int| 0 <= j < i ==> !(s0[j].0 != id@ && profile@.username is Some
                    && slot_str(s0[j].1.username) == profile@.username),
            decreases n - i,
        {
            let e = &self.entries[i];
            if !(e.0 == *id) {
                match (&e.1.username, &profile.username) {
                    (Value::Str(stored), Some(candidate)) => {
                        if *stored == *candidate {
                            proof {
                                assert(s0[i as int].0 != id@);
                                assert(slot_str(s0[i as int].1.username) == profile@.username);
                                assert(username_taken(s0, id@, profile@.username));
                            }
                            return Err(ProfileError::UsernameTaken);
                        }
                    },
                    _ => {},
                }
            }
            i += 1;
        }
        proof {
            assert(!username_taken(s0, id@, profile@.username));
        }
        let mut node = ProfileNode::new_empty();
        profile.write_to_node(&mut node);
        self.set_node(id, node);
        Ok(())
    }

    /// Lists every profile that is not a draft, in enumeration order. Fails
    /// with the structural error as soon as any document fails to decode.
    pub fn list_profiles(&self) -> (r: Result<Vec<Profile>, ProfileError>)
        ensures
            match r {
                Ok(v) => spec_list(self@) == Some(v.deep_view()),
                Err(e) => {
                    &&& e == ProfileError::StructuralDecodeError
                    &&& spec_list(self@) is None
                },
            },
    {
        let ghost s = self@;
        let mut out: Vec<Profile> = Vec::new();
        let mut i: usize = 0;
        proof {
            assert(s.take(0) =~= Seq::<(Seq<char>, ProfileNodeModel)>::empty());
            assert(out.deep_view() =~= Seq::<ProfileModel>::empty());
        }
        while i < self.entries.len()
            invariant
                s == self@,
                i <= self.entries.len(),
                spec_list(s.take(i as int)) == Some(out.deep_view()),
            decreases self.entries.len() - i,
        {
            proof {
                assert(s.take(i as int + 1).drop_last() =~= s.take(i as int));
                assert(s.take(i as int + 1).last() == s[i as int]);
            }
            match Profile::from_node(&self.entries[i].1) {
                Ok(p) => {
                    if p.username.is_some() {
                        out.push(p);
                        proof {
                            assert(spec_list(s.take(i as int + 1)) == Some(out.deep_view())) by {
                                assert(out.deep_view() =~= spec_list(s.take(i as int + 1)).unwrap());
                            }
                        }
                    }
                },
                Err(_) => {
                    proof {
                        assert(spec_list(s.take(i as int + 1)) is None);
                        lemma_spec_list_none_extends(s, i as int + 1);
                    }
                    return Err(ProfileError::StructuralDecodeError);
                },
            }
            i += 1;
        }
        proof {
            assert(s.take(self.entries.len() as int) =~= s);
        }
        Ok(out)
    }

    /// Finds the first profile stored under the queried username and
    /// decodes it fully. Exhausting the collection without a match is the
    /// distinct [`ProfileError::NotFound`] outcome; a match whose document
    /// does not decode is the structural error.
    pub fn find_by_username(&self, username: &String) -> (r: Result<Profile, ProfileError>)
        ensures
            match r {
                Ok(p) => {
                    &&& spec_find(self@, username@) matches Some(n)
                    &&& decode_node(spec_find(self@, username@).unwrap()) == Some(p@)
                },
                Err(e) => match spec_find(self@, username@) {
                    Option::None => e == ProfileError::NotFound,
                    Option::Some(n) => {
                        &&& e == ProfileError::StructuralDecodeError
                        &&& decode_node(n) is None
                    },
                },
            },
    {
        let ghost s = self@;
        let mut i: usize = 0;
        proof {
            assert(s.skip(0) =~= s);
        }
        while i < self.entries.len()
            invariant
                s == self@,
                i <= self.entries.len(),
                spec_find(s, username@) == spec_find(s.skip(i as int), username@),
            decreases self.entries.len() - i,
        {
            proof {
                assert(s.skip(i as int)[0] == s[i as int]);
            }
            let e = &self.entries[i];
            let matched = match &e.1.username {
                Value::Str(stored) => *stored == *username,
                _ => false,
            };
            if matched {
                proof {
                    assert(spec_find(s, username@) == Some(s[i as int].1));
                }
                return match Profile::from_node(&e.1) {
                    Ok(p) => Ok(p),
                    Err(_) => Err(ProfileError::StructuralDecodeError),
                };
            }
            proof {
                assert(s.skip(i as int).drop_first() =~= s.skip(i as int + 1));
            }
            i += 1;
        }
        proof {
            assert(s.skip(self.entries.len() as int) =~= Seq::<
                (Seq<char>, ProfileNodeModel),
            >::empty());
        }
        Err(ProfileError::NotFound)
    }

    /// Deletion is defined but unimplemented: it still materializes a draft
    /// node for the identifier (the get-or-create side effect of addressing
    /// it) and then always fails.
    pub fn delete_profile(&mut self, id: &String) -> (r: Result<(), ProfileError>)
        requires
            old(self).wf(),
        ensures
            final(self).wf(),
            final(self)@ == spec_get_or_init(old(self)@, id@),
            r == Err::<(), ProfileError>(ProfileError::Unimplemented),
    {
        let _idx = self.get_or_init_index(id);
        Err(ProfileError::Unimplemented)
    }
}

} // verus!
