//! Document projection: the typed [`Profile`] record to and from the
//! dynamically typed [`ProfileNode`] shape the store keeps.
//!
//! Decoding is tolerant for scalar slots (absent or wrong-typed becomes an
//! absent field) but strict for tag keys (a non-string key fails the whole
//! decode). Encoding is total: every slot is overwritten, absence is written
//! as an explicit null, and the tag key set is rebuilt from scratch.

use vstd::prelude::*;

use crate::node::ProfileNode;
use crate::node::ProfileNodeModel;
use crate::profile::Profile;
use crate::profile::ProfileError;
use crate::profile::ProfileModel;
use crate::profile::WorkCapacity;
use crate::profile::WorkCompensation;
use crate::value::slot_str;
use crate::value::Value;
use crate::value::ValueModel;

verus! {

/// The fixed string token a work capacity is stored as.
pub open spec fn capacity_token(c: WorkCapacity) -> Seq<char> {
    match c {
        WorkCapacity::FullTime => "full_time"@,
        WorkCapacity::PartTime => "part_time"@,
    }
}

/// The fixed string token a work compensation is stored as.
pub open spec fn compensation_token(c: WorkCompensation) -> Seq<char> {
    match c {
        WorkCompensation::Paid => "paid"@,
        WorkCompensation::Volunteer => "volunteer"@,
    }
}

/// What a stored work-capacity slot decodes to: one of the two expected
/// tokens yields its enumerant, anything else silently decodes to absent.
pub open spec fn decode_capacity(v: ValueModel) -> Option<WorkCapacity> {
    match slot_str(v) {
        Some(s) => if s == "full_time"@ {
            Some(WorkCapacity::FullTime)
        } else if s == "part_time"@ {
            Some(WorkCapacity::PartTime)
        } else {
            None
        },
        None => None,
    }
}

/// What a stored work-compensation slot decodes to.
pub open spec fn decode_compensation(v: ValueModel) -> Option<WorkCompensation> {
    match slot_str(v) {
        Some(s) => if s == "paid"@ {
            Some(WorkCompensation::Paid)
        } else if s == "volunteer"@ {
            Some(WorkCompensation::Volunteer)
        } else {
            None
        },
        None => None,
    }
}

/// Whether every tag key of a node is a string; decoding fails otherwise.
pub open spec fn tag_keys_ok(keys: Seq<ValueModel>) -> bool {
    forall|i: int| 0 <= i < keys.len() ==> keys[i] is Str
}

/// The string inside a string value (arbitrary elsewhere; only applied
/// under [`tag_keys_ok`]).
pub open spec fn str_of(v: ValueModel) -> Seq<char> {
    match v {
        ValueModel::Str(s) => s,
        _ => Seq::empty(),
    }
}

/// The tag strings a node's tag keys decode to, in store order.
pub open spec fn tag_strings(keys: Seq<ValueModel>) -> Seq<Seq<char>> {
    keys.map_values(|v: ValueModel| str_of(v))
}

/// What a whole node decodes to: `None` exactly when some tag key is not a
/// string; scalar slots never fail, they decode to absent instead.
pub open spec fn decode_node(n: ProfileNodeModel) -> Option<ProfileModel> {
    if tag_keys_ok(n.tag_keys) {
        Some(
            ProfileModel {
                username: slot_str(n.username),
                display_name: slot_str(n.display_name),
                contact_info: slot_str(n.contact_info),
                avatar_seed: slot_str(n.avatar_seed),
                location: slot_str(n.location),
                tags: tag_strings(n.tag_keys),
                work_capacity: decode_capacity(n.work_capacity),
                work_compensation: decode_compensation(n.work_compensation),
                bio: slot_str(n.bio),
            },
        )
    } else {
        None
    }
}

/// A present string encodes as itself, an absent one as an explicit null.
pub open spec fn str_or_null(o: Option<Seq<char>>) -> ValueModel {
    match o {
        Some(s) => ValueModel::Str(s),
        None => ValueModel::Null,
    }
}

/// The value written to the avatar-seed slot: the profile's own seed, or,
/// when that is absent, the username at write time.
pub open spec fn avatar_seed_slot(p: ProfileModel) -> Option<Seq<char>> {
    if p.avatar_seed is Some {
        p.avatar_seed
    } else {
        p.username
    }
}

/// The encoded work-capacity slot.
pub open spec fn encode_capacity(o: Option<WorkCapacity>) -> ValueModel {
    match o {
        Some(c) => ValueModel::Str(capacity_token(c)),
        None => ValueModel::Null,
    }
}

/// The encoded work-compensation slot.
pub open spec fn encode_compensation(o: Option<WorkCompensation>) -> ValueModel {
    match o {
        Some(c) => ValueModel::Str(compensation_token(c)),
        None => ValueModel::Null,
    }
}

/// The tag sequence with later duplicates dropped: writing tags as map keys
/// collapses repeats, keeping one key per distinct tag.
pub open spec fn dedup_firsts(tags: Seq<Seq<char>>) -> Seq<Seq<char>>
    decreases tags.len(),
{
    if tags.len() == 0 {
        Seq::empty()
    } else if tags.drop_last().contains(tags.last()) {
        dedup_firsts(tags.drop_last())
    } else {
        dedup_firsts(tags.drop_last()).push(tags.last())
    }
}

/// Dropping duplicates changes no membership.
pub proof fn lemma_dedup_firsts_contains(tags: Seq<Seq<char>>, x: Seq<char>)
    ensures
        dedup_firsts(tags).contains(x) <==> tags.contains(x),
    decreases tags.len(),
{
    if tags.len() == 0 {
        assert(!tags.contains(x));
    } else {
        let head = tags.drop_last();
        lemma_dedup_firsts_contains(head, x);
        assert(tags.contains(x) <==> (head.contains(x) || tags.last() == x)) by {
            if tags.contains(x) {
                let k = choose|k: int| 0 <= k < tags.len() && tags[k] == x;
                if k < tags.len() - 1 {
                    assert(head[k] == x);
                }
            }
            if head.contains(x) {
                let k = choose|k: int| 0 <= k < head.len() && head[k] == x;
                assert(tags[k] == x);
            }
            if tags.last() == x {
                assert(tags[tags.len() - 1] == x);
            }
        }
        if !head.contains(tags.last()) {
            let d = dedup_firsts(head);
            assert(dedup_firsts(tags) == d.push(tags.last()));
            assert(d.push(tags.last()).contains(x) <==> (d.contains(x) || tags.last() == x)) by {
                if d.contains(x) {
                    let k = choose|k: int| 0 <= k < d.len() && d[k] == x;
                    assert(d.push(tags.last())[k] == x);
                }
                if tags.last() == x {
                    assert(d.push(tags.last())[d.len() as int] == x);
                }
                if d.push(tags.last()).contains(x) {
                    let k = choose|k: int| 0 <= k < d.len() + 1 && d.push(tags.last())[k] == x;
                    if k < d.len() {
                        assert(d[k] == x);
                    }
                }
            }
        }
    }
}

/// Dropping duplicates keeps the tag set.
pub proof fn lemma_dedup_firsts_to_set(tags: Seq<Seq<char>>)
    ensures
        dedup_firsts(tags).to_set() == tags.to_set(),
{
    assert forall|x: Seq<char>| #[trigger] dedup_firsts(tags).to_set().contains(x)
        <==> tags.to_set().contains(x) by {
        lemma_dedup_firsts_contains(tags, x);
    }
    assert(dedup_firsts(tags).to_set() =~= tags.to_set());
}

/// The tag keys a profile encodes to: one string key per distinct tag, in
/// first-occurrence order.
pub open spec fn encoded_tag_keys(tags: Seq<Seq<char>>) -> Seq<ValueModel> {
    dedup_firsts(tags).map_values(|t: Seq<char>| ValueModel::Str(t))
}

/// What a whole profile encodes to. Encoding is total: every slot of the
/// node is determined by the profile alone, nothing of the prior document
/// survives.
pub open spec fn encode_node(p: ProfileModel) -> ProfileNodeModel {
    ProfileNodeModel {
        username: str_or_null(p.username),
        display_name: str_or_null(p.display_name),
        contact_info: str_or_null(p.contact_info),
        avatar_seed: str_or_null(avatar_seed_slot(p)),
        location: str_or_null(p.location),
        bio: str_or_null(p.bio),
        work_capacity: encode_capacity(p.work_capacity),
        work_compensation: encode_compensation(p.work_compensation),
        tag_keys: encoded_tag_keys(p.tags),
    }
}

fn opt_to_value(o: &Option<String>) -> (v: Value)
    ensures
        v@ == str_or_null(o.deep_view()),
{
    match o {
        Some(s) => Value::Str(s.clone()),
        None => Value::Null,
    }
}

fn decode_capacity_slot(v: &Value) -> (r: Option<WorkCapacity>)
    ensures
        r == decode_capacity(v@),
{
    match v {
        Value::Str(s) => {
            let full: String = "full_time".to_owned();
            let part: String = "part_time".to_owned();
            if *s == full {
                Some(WorkCapacity::FullTime)
            } else if *s == part {
                Some(WorkCapacity::PartTime)
            } else {
                None
            }
        },
        _ => None,
    }
}

fn decode_compensation_slot(v: &Value) -> (r: Option<WorkCompensation>)
    ensures
        r == decode_compensation(v@),
{
    match v {
        Value::Str(s) => {
            let paid: String = "paid".to_owned();
            let volunteer: String = "volunteer".to_owned();
            if *s == paid {
                Some(WorkCompensation::Paid)
            } else if *s == volunteer {
                Some(WorkCompensation::Volunteer)
            } else {
                None
            }
        },
        _ => None,
    }
}

fn encode_capacity_slot(o: &Option<WorkCapacity>) -> (v: Value)
    ensures
        v@ == encode_capacity(*o),
{
    match o {
        Some(WorkCapacity::FullTime) => Value::Str("full_time".to_owned()),
        Some(WorkCapacity::PartTime) => Value::Str("part_time".to_owned()),
        None => Value::Null,
    }
}

fn encode_compensation_slot(o: &Option<WorkCompensation>) -> (v: Value)
    ensures
        v@ == encode_compensation(*o),
{
    match o {
        Some(WorkCompensation::Paid) => Value::Str("paid".to_owned()),
        Some(WorkCompensation::Volunteer) => Value::Str("volunteer".to_owned()),
        None => Value::Null,
    }
}

fn encode_tag_keys_exec(tags: &Vec<String>) -> (r: Vec<Value>)
    ensures
        r.deep_view() == encoded_tag_keys(tags.deep_view()),
{
    let ghost all = tags.deep_view();
    let mut r: Vec<Value> = Vec::new();
    let mut i: usize = 0;
    proof {
        assert(all.take(0) =~= Seq::<Seq<char>>::empty());
        assert(r.deep_view() =~= encoded_tag_keys(all.take(0)));
    }
    while i < tags.len()
        invariant
            i <= tags.len(),
            all == tags.deep_view(),
            r.deep_view() == encoded_tag_keys(all.take(i as int)),
        decreases tags.len() - i,
    {
        let t = &tags[i];
        let mut seen = false;
        let mut j: usize = 0;
        while j < r.len()
            invariant
                j <= r.len(),
                seen <==> exists|k: int|
                    0 <= k < j && r.deep_view()[k] == ValueModel::Str(t@),
            decreases r.len() - j,
        {
            match &r[j] {
                Value::Str(s) => {
                    if *s == *t {
                        seen = true;
                        assert(r.deep_view()[j as int] == ValueModel::Str(t@));
                    }
                },
                _ => {},
            }
            j += 1;
        }
        let ghost prefix = all.take(i as int);
        let ghost longer = all.take(i as int + 1);
        proof {
            assert(longer.drop_last() =~= prefix);
            assert(longer.last() == t@);
            let d = dedup_firsts(prefix);
            assert(r.deep_view().len() == d.len());
            assert(j == r.len());
            assert(seen <==> d.contains(t@)) by {
                if seen {
                    let k = choose|k: int|
                        0 <= k < j && r.deep_view()[k] == ValueModel::Str(t@);
                    assert(encoded_tag_keys(prefix)[k] == ValueModel::Str(d[k]));
                    assert(r.deep_view()[k] == encoded_tag_keys(prefix)[k]);
                    assert(d[k] == t@);
                    assert(d.contains(t@));
                }
                if d.contains(t@) {
                    let k = choose|k: int| 0 <= k < d.len() && d[k] == t@;
                    assert(encoded_tag_keys(prefix)[k] == ValueModel::Str(d[k]));
                    assert(r.deep_view()[k] == ValueModel::Str(t@));
                    assert(0 <= k < j && r.deep_view()[k] == ValueModel::Str(t@));
                }
            }
            lemma_dedup_firsts_contains(prefix, t@);
        }
        if !seen {
            let ghost rbefore = r@;
            let ghost rbefore_deep = r.deep_view();
            let pushed = Value::Str(t.clone());
            let ghost pm = pushed@;
            r.push(pushed);
            proof {
                let d = dedup_firsts(prefix);
                assert(pm == ValueModel::Str(t@));
                assert(dedup_firsts(longer) == d.push(t@));
                assert(rbefore_deep.len() == rbefore.len());
                assert(rbefore_deep.len() == d.len());
                assert(r@.len() == rbefore.len() + 1);
                assert forall|k: int| 0 <= k < r.deep_view().len() implies r.deep_view()[k]
                    == encoded_tag_keys(longer)[k] by {
                    assert(encoded_tag_keys(longer)[k] == ValueModel::Str(dedup_firsts(longer)[k]));
                    if k < rbefore.len() {
                        assert(r@[k] == rbefore[k]);
                        assert(r.deep_view()[k] == rbefore_deep[k]);
                        assert(rbefore_deep[k] == encoded_tag_keys(prefix)[k]);
                        assert(encoded_tag_keys(prefix)[k] == ValueModel::Str(d[k]));
                        assert(dedup_firsts(longer)[k] == d[k]);
                    } else {
                        assert(k == rbefore.len());
                        assert(r@[k]@ == pm);
                        assert(dedup_firsts(longer)[k] == t@);
                    }
                }
                assert(r.deep_view().len() == encoded_tag_keys(longer).len());
                assert(r.deep_view() =~= encoded_tag_keys(longer));
            }
        } else {
            proof {
                assert(dedup_firsts(longer) == dedup_firsts(prefix));
                assert(r.deep_view() =~= encoded_tag_keys(longer));
            }
        }
        i += 1;
    }
    proof {
        assert(all.take(tags.len() as int) =~= all);
    }
    r
}

impl Profile {
    /// Decodes a store node into a profile: scalar slots tolerantly, the
    /// enumeration slots against their fixed tokens, and the tag keys
    /// strictly — a non-string tag key fails the whole document with
    /// [`ProfileError::StructuralDecodeError`], the one structural error
    /// decoding can raise.
    pub fn from_node(node: &ProfileNode) -> (r: Result<Profile, ProfileError>)
        ensures
            match r {
                Ok(p) => decode_node(node@) == Some(p@),
                Err(e) => {
                    &&& e == ProfileError::StructuralDecodeError
                    &&& decode_node(node@) is None
                },
            },
    {
        let username = node.username.as_str_opt();
        let display_name = node.display_name.as_str_opt();
        let avatar_seed = node.avatar_seed.as_str_opt();
        let location = node.location.as_str_opt();
        let contact_info = node.contact_info.as_str_opt();
        let work_capacity = decode_capacity_slot(&node.work_capacity);
        let work_compensation = decode_compensation_slot(&node.work_compensation);
        let bio = node.bio.as_str_opt();

        let ghost keys = node@.tag_keys;
        let mut tags: Vec<String> = Vec::new();
        let mut i: usize = 0;
        proof {
            assert(tags.deep_view() =~= tag_strings(keys.take(0)));
        }
        while i < node.tag_keys.len()
            invariant
                i <= node.tag_keys.len(),
                keys == node@.tag_keys,
                forall|j: int| 0 <= j < i ==> keys[j] is Str,
                tags.deep_view() == tag_strings(keys.take(i as int)),
            decreases node.tag_keys.len() - i,
        {
            match &node.tag_keys[i] {
                Value::Str(s) => {
                    let ghost before = tags@;
                    let ghost before_deep = tags.deep_view();
                    tags.push(s.clone());
                    proof {
                        let prev = keys.take(i as int);
                        let next = keys.take(i as int + 1);
                        assert(next.drop_last() =~= prev);
                        assert(before_deep.len() == before.len());
                        assert(before_deep.len() == prev.len());
                        assert(tags@.len() == before.len() + 1);
                        assert forall|j: int| 0 <= j < i + 1 implies tags.deep_view()[j]
                            == tag_strings(next)[j] by {
                            assert(next[j] == keys[j]);
                            assert(tag_strings(next)[j] == str_of(keys[j]));
                            if j < i {
                                assert(tags@[j] == before[j]);
                                assert(tags.deep_view()[j] == before_deep[j]);
                                assert(before_deep[j] == tag_strings(prev)[j]);
                            } else {
                                assert(keys[j] == node.tag_keys@[j]@);
                                assert(tags@[j]@ == s@);
                                assert(tags.deep_view()[j] == tags@[j]@);
                            }
                        }
                        assert(tags.deep_view().len() == tag_strings(next).len());
                        assert(tags.deep_view() =~= tag_strings(next));
                    }
                },
                _ => {
                    proof {
                        assert(!(keys[i as int] is Str));
                        assert(!tag_keys_ok(keys));
                    }
                    return Err(ProfileError::StructuralDecodeError);
                },
            }
            i += 1;
        }
        proof {
            assert(keys.take(node.tag_keys.len() as int) =~= keys);
            assert(tag_keys_ok(keys));
        }
        let p = Profile {
            username,
            display_name,
            contact_info,
            avatar_seed,
            location,
            tags,
            work_capacity,
            work_compensation,
            bio,
        };
        proof {
            assert(decode_node(node@) == Some(p@));
        }
        Ok(p)
    }

    /// Encodes this profile into a store node, fully replacing the prior
    /// document: every scalar slot is overwritten (absent fields as nulls,
    /// an absent avatar seed as the username), and the tag keys are cleared
    /// and rebuilt from this profile's tags alone.
    pub fn write_to_node(&self, node: &mut ProfileNode)
        ensures
            final(node)@ == encode_node(self@),
    {
        node.username = opt_to_value(&self.username);
        node.display_name = opt_to_value(&self.display_name);
        let avatar = match (&self.avatar_seed, &self.username) {
            (Some(s), _) => Value::Str(s.clone()),
            (None, Some(u)) => Value::Str(u.clone()),
            (None, None) => Value::Null,
        };
        node.avatar_seed = avatar;
        node.location = opt_to_value(&self.location);
        node.contact_info = opt_to_value(&self.contact_info);
        node.work_capacity = encode_capacity_slot(&self.work_capacity);
        node.work_compensation = encode_compensation_slot(&self.work_compensation);
        node.bio = opt_to_value(&self.bio);
        node.tag_keys = encode_tag_keys_exec(&self.tags);
    }
}

} // verus!
