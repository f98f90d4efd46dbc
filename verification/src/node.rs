//! The store-side shape of one profile document: a map node with one
//! dynamically typed slot per profile field plus a nested map whose keys
//! carry the tag set.

use vstd::prelude::*;

use crate::value::Value;
use crate::value::ValueModel;

verus! {

/// One profile node as read from (or written to) the store: every scalar
/// field of the profile has a named slot, and the `tags` child map is kept
/// as the sequence of its children's keys, in store-native order. Key
/// presence, not the (unit) values, is what carries tag membership.
#[derive(Clone, Debug, PartialEq, Eq)]
pub struct ProfileNode {
    pub username: Value,
    pub display_name: Value,
    pub contact_info: Value,
    pub avatar_seed: Value,
    pub location: Value,
    pub bio: Value,
    pub work_capacity: Value,
    pub work_compensation: Value,
    pub tag_keys: Vec<Value>,
}

/// The mathematical model of a [`ProfileNode`].
pub struct ProfileNodeModel {
    pub username: ValueModel,
    pub display_name: ValueModel,
    pub contact_info: ValueModel,
    pub avatar_seed: ValueModel,
    pub location: ValueModel,
    pub bio: ValueModel,
    pub work_capacity: ValueModel,
    pub work_compensation: ValueModel,
    pub tag_keys: Seq<ValueModel>,
}

impl View for ProfileNode {
    type V = ProfileNodeModel;

    open spec fn view(&self) -> ProfileNodeModel {
        ProfileNodeModel {
            username: self.username@,
            display_name: self.display_name@,
            contact_info: self.contact_info@,
            avatar_seed: self.avatar_seed@,
            location: self.location@,
            bio: self.bio@,
            work_capacity: self.work_capacity@,
            work_compensation: self.work_compensation@,
            tag_keys: self.tag_keys.deep_view(),
        }
    }
}

impl DeepView for ProfileNode {
    type V = ProfileNodeModel;

    open spec fn deep_view(&self) -> ProfileNodeModel {
        self.view()
    }
}

/// The node a fresh identifier materializes as: every slot unset, no tags.
pub open spec fn empty_node() -> ProfileNodeModel {
    ProfileNodeModel {
        username: ValueModel::Null,
        display_name: ValueModel::Null,
        contact_info: ValueModel::Null,
        avatar_seed: ValueModel::Null,
        location: ValueModel::Null,
        bio: ValueModel::Null,
        work_capacity: ValueModel::Null,
        work_compensation: ValueModel::Null,
        tag_keys: Seq::empty(),
    }
}

impl ProfileNode {
    /// Builds the empty node that an idempotent get-or-create returns for an
    /// identifier with no prior document.
    pub fn new_empty() -> (n: ProfileNode)
        ensures
            n@ == empty_node(),
    {
        let n = ProfileNode {
            username: Value::Null,
            display_name: Value::Null,
            contact_info: Value::Null,
            avatar_seed: Value::Null,
            location: Value::Null,
            bio: Value::Null,
            work_capacity: Value::Null,
            work_compensation: Value::Null,
            tag_keys: Vec::new(),
        };
        proof {
            assert(n@.tag_keys =~= empty_node().tag_keys);
        }
        n
    }
}

} // verus!
