//! The typed profile record, its enumerations, and the error taxonomy of
//! the profile service.

use vstd::prelude::*;

verus! {

/// How much time the person behind a profile can commit.
#[derive(Clone, Copy, Debug, PartialEq, Eq, Structural)]
pub enum WorkCapacity {
    FullTime,
    PartTime,
}

/// Whether the person behind a profile works for pay or volunteers.
#[derive(Clone, Copy, Debug, PartialEq, Eq, Structural)]
pub enum WorkCompensation {
    Paid,
    Volunteer,
}

/// Everything a profile operation can fail with.
#[derive(Clone, Copy, Debug, PartialEq, Eq, Structural)]
pub enum ProfileError {
    /// An underlying store operation failed; surfaced unchanged, never
    /// retried. The in-memory collection never produces it; callers that
    /// drive a remote store map its failures to this variant.
    StoreFailure,
    /// A value that must be a string (a tag's key segment) is not; the
    /// whole decode of that document fails.
    StructuralDecodeError,
    /// The uniqueness protocol rejected a write: the proposed username is
    /// already claimed by a different profile.
    UsernameTaken,
    /// A find-by-username query exhausted the collection without a match.
    NotFound,
    /// Profile deletion is a defined but unimplemented operation.
    Unimplemented,
}

/// The persisted profile document. Every field is optional; a profile with
/// no `username` is a draft and stays out of listings.
#[derive(Clone, Debug, PartialEq, Eq)]
pub struct Profile {
    pub username: Option<String>,
    pub display_name: Option<String>,
    pub contact_info: Option<String>,
    pub avatar_seed: Option<String>,
    pub location: Option<String>,
    pub tags: Vec<String>,
    pub work_capacity: Option<WorkCapacity>,
    pub work_compensation: Option<WorkCompensation>,
    pub bio: Option<String>,
}

/// The mathematical model of a [`Profile`]: strings as character sequences,
/// tags as the sequence they were collected in (their set is what carries
/// meaning).
pub struct ProfileModel {
    pub username: Option<Seq<char>>,
    pub display_name: Option<Seq<char>>,
    pub contact_info: Option<Seq<char>>,
    pub avatar_seed: Option<Seq<char>>,
    pub location: Option<Seq<char>>,
    pub tags: Seq<Seq<char>>,
    pub work_capacity: Option<WorkCapacity>,
    pub work_compensation: Option<WorkCompensation>,
    pub bio: Option<Seq<char>>,
}

impl ProfileModel {
    /// The tag set a profile carries; the order tags were collected in is
    /// not semantically meaningful.
    pub open spec fn tag_set(self) -> Set<Seq<char>> {
        self.tags.to_set()
    }
}

impl View for Profile {
    type V = ProfileModel;

    open spec fn view(&self) -> ProfileModel {
        ProfileModel {
            username: self.username.deep_view(),
            display_name: self.display_name.deep_view(),
            contact_info: self.contact_info.deep_view(),
            avatar_seed: self.avatar_seed.deep_view(),
            location: self.location.deep_view(),
            tags: self.tags.deep_view(),
            work_capacity: self.work_capacity,
            work_compensation: self.work_compensation,
            bio: self.bio.deep_view(),
        }
    }
}

impl DeepView for Profile {
    type V = ProfileModel;

    open spec fn deep_view(&self) -> ProfileModel {
        self.view()
    }
}

/// The model of the all-absent profile.
pub open spec fn default_profile() -> ProfileModel {
    ProfileModel {
        username: None,
        display_name: None,
        contact_info: None,
        avatar_seed: None,
        location: None,
        tags: Seq::empty(),
        work_capacity: None,
        work_compensation: None,
        bio: None,
    }
}

impl Default for Profile {
    /// The profile with every field absent and no tags.
    fn default() -> (p: Profile)
        ensures
            p@ == default_profile(),
    {
        let p = Profile {
            username: None,
            display_name: None,
            contact_info: None,
            avatar_seed: None,
            location: None,
            tags: Vec::new(),
            work_capacity: None,
            work_compensation: None,
            bio: None,
        };
        proof {
            assert(p@.tags =~= default_profile().tags);
        }
        p
    }
}

} // verus!
