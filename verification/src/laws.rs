//! The library-wide laws: what holds of the projection and of the
//! collection protocol across operations, proved once and for all inputs.

use vstd::prelude::*;

use crate::codec::decode_node;
use crate::codec::dedup_firsts;
use crate::codec::encode_node;
use crate::codec::encoded_tag_keys;
use crate::codec::lemma_dedup_firsts_to_set;
use crate::codec::tag_keys_ok;
use crate::codec::tag_strings;
use crate::node::ProfileNodeModel;
use crate::profile::ProfileModel;
use crate::store::has_id;
use crate::store::id_index;
use crate::store::ids_unique;
use crate::store::lemma_id_index_agrees;
use crate::store::node_at;
use crate::store::spec_find;
use crate::store::spec_list;
use crate::store::spec_put;
use crate::store::store_with;
use crate::store::username_taken;
use crate::store::StoreModel;
use crate::value::slot_str;
use crate::value::ValueModel;

verus! {

/// Every encoded document decodes, and its decoded tag set is exactly the
/// encoded profile's tag set: writing tags as map keys loses duplicates but
/// no membership.
pub proof fn lemma_encode_node_decodes(p: ProfileModel)
    ensures
        decode_node(encode_node(p)) is Some,
        decode_node(encode_node(p)).unwrap().tags == dedup_firsts(p.tags),
        decode_node(encode_node(p)).unwrap().tag_set() == p.tag_set(),
{
    let keys = encoded_tag_keys(p.tags);
    assert(tag_keys_ok(keys)) by {
        assert forall|i: int| 0 <= i < keys.len() implies keys[i] is Str by {
            assert(keys[i] == ValueModel::Str(dedup_firsts(p.tags)[i]));
        }
    }
    assert(tag_strings(keys) =~= dedup_firsts(p.tags));
    lemma_dedup_firsts_to_set(p.tags);
}

/// Round trip: encoding a profile and decoding the node yields the profile
/// back, field for field, with tags compared as sets — provided the avatar
/// seed is present, since an absent one is deliberately replaced by the
/// username on write.
pub proof fn lemma_round_trip(p: ProfileModel)
    requires
        p.avatar_seed is Some,
    ensures
        decode_node(encode_node(p)) is Some,
        ({
            let q = decode_node(encode_node(p)).unwrap();
            &&& q.username == p.username
            &&& q.display_name == p.display_name
            &&& q.contact_info == p.contact_info
            &&& q.avatar_seed == p.avatar_seed
            &&& q.location == p.location
            &&& q.bio == p.bio
            &&& q.work_capacity == p.work_capacity
            &&& q.work_compensation == p.work_compensation
            &&& q.tag_set() == p.tag_set()
        }),
{
    lemma_encode_node_decodes(p);
    reveal_strlit("full_time");
    reveal_strlit("part_time");
    reveal_strlit("paid");
    reveal_strlit("volunteer");
    assert("full_time"@ != "part_time"@) by {
        assert("full_time"@[0] == 'f');
        assert("part_time"@[0] == 'p');
    }
    assert("paid"@ != "volunteer"@) by {
        assert("paid"@.len() == 4);
        assert("volunteer"@.len() == 9);
    }
}

/// Default fallback: encoding a profile whose avatar seed is absent stores
/// the username in the avatar-seed slot, so the decoded document carries
/// the username as its avatar seed.
pub proof fn lemma_avatar_seed_defaults_to_username(p: ProfileModel)
    requires
        p.avatar_seed is None,
    ensures
        decode_node(encode_node(p)) is Some,
        decode_node(encode_node(p)).unwrap().avatar_seed == p.username,
{
    lemma_encode_node_decodes(p);
}

/// Draft filtering, first half: a profile without a username is always
/// storable — the uniqueness protocol never rejects a draft.
pub proof fn lemma_draft_put_succeeds(s: StoreModel, id: Seq<char>, p: ProfileModel)
    requires
        p.username is None,
    ensures
        spec_put(s, id, p) is Some,
{
    assert(!username_taken(s, id, p.username));
}

/// Draft filtering, second half: whatever the collection holds, every
/// profile a successful listing yields has a username — drafts are
/// excluded, though they physically exist as nodes.
pub proof fn lemma_list_excludes_drafts(s: StoreModel)
    requires
        spec_list(s) is Some,
    ensures
        forall|i: int|
            0 <= i < spec_list(s).unwrap().len() ==> (#[trigger] spec_list(
                s,
            ).unwrap()[i]).username is Some,
    decreases s.len(),
{
    if s.len() == 0 {
    } else {
        lemma_list_excludes_drafts(s.drop_last());
        let prev = spec_list(s.drop_last()).unwrap();
        let cur = spec_list(s).unwrap();
        assert forall|i: int| 0 <= i < cur.len() implies (#[trigger] cur[i]).username
            is Some by {
            if i < prev.len() {
                assert(cur[i] == prev[i]);
            }
        }
    }
}

/// Replacing a document keeps identifiers unique and stores exactly the
/// new node under the identifier.
pub proof fn lemma_store_with_node_at(s: StoreModel, id: Seq<char>, n: ProfileNodeModel)
    requires
        ids_unique(s),
    ensures
        ids_unique(store_with(s, id, n)),
        node_at(store_with(s, id, n), id) == n,
{
    let s1 = store_with(s, id, n);
    if has_id(s, id) {
        let k = id_index(s, id);
        assert(0 <= k < s.len() && s[k].0 == id);
        assert(ids_unique(s1)) by {
            assert forall|a: int, b: int| 0 <= a < b < s1.len() implies s1[a].0 != s1[b].0 by {
                assert(s1[a].0 == s[a].0);
                assert(s1[b].0 == s[b].0);
            }
        }
        lemma_id_index_agrees(s1, id, k);
    } else {
        assert(ids_unique(s1)) by {
            assert forall|a: int, b: int| 0 <= a < b < s1.len() implies s1[a].0 != s1[b].0 by {
                if b < s.len() {
                    assert(s1[a].0 == s[a].0);
                    assert(s1[b].0 == s[b].0);
                } else {
                    assert(s1[b].0 == id);
                    assert(!(exists|i: int| 0 <= i < s.len() && s[i].0 == id));
                    assert(s1[a].0 == s[a].0);
                }
            }
        }
        lemma_id_index_agrees(s1, id, s.len() as int);
    }
}

/// Uniqueness is self-exempt: after a profile was written under an
/// identifier, rewriting under the same identifier with the same username
/// (whatever the other fields) passes the uniqueness protocol again.
pub proof fn lemma_rewrite_self_exempt(
    s: StoreModel,
    id: Seq<char>,
    p1: ProfileModel,
    p2: ProfileModel,
)
    requires
        spec_put(s, id, p1) is Some,
        p2.username == p1.username,
    ensures
        spec_put(spec_put(s, id, p1).unwrap(), id, p2) is Some,
{
    let s1 = spec_put(s, id, p1).unwrap();
    assert(!username_taken(s1, id, p2.username)) by {
        if username_taken(s1, id, p2.username) {
            let i = choose|i: int|
                0 <= i < s1.len() && s1[i].0 != id && p2.username is Some && slot_str(
                    s1[i].1.username,
                ) == p2.username;
            if has_id(s, id) {
                let k = id_index(s, id);
                assert(0 <= k < s.len() && s[k].0 == id);
                assert(i != k);
                assert(s1[i] == s[i]);
            } else {
                assert(i < s.len());
                assert(s1[i] == s[i]);
            }
            assert(username_taken(s, id, p1.username));
        }
    }
}

/// Uniqueness across identifiers: after a profile with a username was
/// written under one identifier, writing any profile with that same
/// username under a different identifier is rejected.
pub proof fn lemma_cross_conflict(
    s: StoreModel,
    id1: Seq<char>,
    id2: Seq<char>,
    p1: ProfileModel,
    p2: ProfileModel,
)
    requires
        spec_put(s, id1, p1) is Some,
        p1.username is Some,
        p2.username == p1.username,
        id2 != id1,
    ensures
        spec_put(spec_put(s, id1, p1).unwrap(), id2, p2) is None,
{
    let s1 = spec_put(s, id1, p1).unwrap();
    assert(slot_str(encode_node(p1).username) == p1.username);
    if has_id(s, id1) {
        let k = id_index(s, id1);
        assert(0 <= k < s.len() && s[k].0 == id1);
        assert(s1[k] == (id1, encode_node(p1)));
        assert(username_taken(s1, id2, p2.username));
    } else {
        assert(s1[s.len() as int] == (id1, encode_node(p1)));
        assert(username_taken(s1, id2, p2.username));
    }
}

/// Tag replacement: writing a profile twice under one identifier leaves
/// exactly the second profile's document there, and its decoded tag set is
/// exactly the second profile's tags — nothing of the first write's tags
/// survives.
pub proof fn lemma_tags_fully_replaced(
    s: StoreModel,
    id: Seq<char>,
    p1: ProfileModel,
    p2: ProfileModel,
)
    requires
        ids_unique(s),
        spec_put(s, id, p1) is Some,
        spec_put(spec_put(s, id, p1).unwrap(), id, p2) is Some,
    ensures
        ({
            let s2 = spec_put(spec_put(s, id, p1).unwrap(), id, p2).unwrap();
            &&& node_at(s2, id) == encode_node(p2)
            &&& decode_node(node_at(s2, id)) is Some
            &&& decode_node(node_at(s2, id)).unwrap().tag_set() == p2.tag_set()
        }),
{
    let s1 = spec_put(s, id, p1).unwrap();
    lemma_store_with_node_at(s, id, encode_node(p1));
    lemma_store_with_node_at(s1, id, encode_node(p2));
    lemma_encode_node_decodes(p2);
}

/// Finding by username in an empty collection is the distinct not-found
/// outcome, never a decode error: there is no document to fail on.
pub proof fn lemma_find_on_empty(username: Seq<char>)
    ensures
        spec_find(Seq::empty(), username) is None,
{
}

} // verus!
