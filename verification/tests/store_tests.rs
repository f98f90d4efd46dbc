use profile_store::Profile;
use profile_store::ProfileError;
use profile_store::ProfileNode;
use profile_store::ProfileStore;
use profile_store::Value;

fn s(x: &str) -> String {
    x.to_owned()
}

fn named(username: &str) -> Profile {
    let mut p = Profile::default();
    p.username = Some(s(username));
    p
}

#[test]
fn draft_is_stored_but_excluded_from_listing() {
    let mut st = ProfileStore::new();
    let mut draft = Profile::default();
    draft.bio = Some(s("just lurking"));
    assert_eq!(st.put_profile(&s("u1"), &draft), Ok(()));
    assert_eq!(st.node_count(), 1);
    let listed = st.list_profiles().unwrap();
    assert!(listed.is_empty());
}

#[test]
fn listing_returns_non_drafts_in_order() {
    let mut st = ProfileStore::new();
    assert_eq!(st.put_profile(&s("u1"), &named("bob")), Ok(()));
    assert_eq!(st.put_profile(&s("u2"), &Profile::default()), Ok(()));
    assert_eq!(st.put_profile(&s("u3"), &named("carol")), Ok(()));
    let listed = st.list_profiles().unwrap();
    assert_eq!(listed.len(), 2);
    assert_eq!(listed[0].username, Some(s("bob")));
    assert_eq!(listed[1].username, Some(s("carol")));
}

#[test]
fn rewriting_own_username_is_no_conflict() {
    let mut st = ProfileStore::new();
    assert_eq!(st.put_profile(&s("u1"), &named("bob")), Ok(()));
    let mut again = named("bob");
    again.bio = Some(s("updated"));
    assert_eq!(st.put_profile(&s("u1"), &again), Ok(()));
    let got = st.get_profile(&s("u1")).unwrap();
    assert_eq!(got.username, Some(s("bob")));
    assert_eq!(got.bio, Some(s("updated")));
    assert_eq!(st.node_count(), 1);
}

#[test]
fn username_taken_by_other_identifier() {
    let mut st = ProfileStore::new();
    assert_eq!(st.put_profile(&s("u1"), &named("bob")), Ok(()));
    let mut other = Profile::default();
    other.bio = Some(s("keep me"));
    assert_eq!(st.put_profile(&s("u2"), &other), Ok(()));

    let r = st.put_profile(&s("u2"), &named("bob"));
    assert_eq!(r, Err(ProfileError::UsernameTaken));

    let unchanged = st.get_profile(&s("u2")).unwrap();
    assert_eq!(unchanged.username, None);
    assert_eq!(unchanged.bio, Some(s("keep me")));
}

#[test]
fn conflicting_write_under_fresh_identifier_creates_nothing() {
    let mut st = ProfileStore::new();
    assert_eq!(st.put_profile(&s("u1"), &named("bob")), Ok(()));
    assert_eq!(st.put_profile(&s("u2"), &named("bob")), Err(ProfileError::UsernameTaken));
    assert_eq!(st.node_count(), 1);
}

#[test]
fn rewrite_replaces_tags_without_residue() {
    let mut st = ProfileStore::new();
    let mut first = named("bob");
    first.tags = vec![s("a"), s("b")];
    assert_eq!(st.put_profile(&s("u1"), &first), Ok(()));
    let mut second = named("bob");
    second.tags = vec![s("c")];
    assert_eq!(st.put_profile(&s("u1"), &second), Ok(()));
    let got = st.get_profile(&s("u1")).unwrap();
    assert_eq!(got.tags, vec![s("c")]);
}

#[test]
fn find_on_empty_collection_is_not_found() {
    let st = ProfileStore::new();
    assert_eq!(st.find_by_username(&s("bob")), Err(ProfileError::NotFound));
}

#[test]
fn find_returns_first_match_fully_decoded() {
    let mut st = ProfileStore::new();
    let mut p = named("bob");
    p.display_name = Some(s("Bob the Builder"));
    assert_eq!(st.put_profile(&s("u1"), &p), Ok(()));
    assert_eq!(st.put_profile(&s("u2"), &named("carol")), Ok(()));
    let found = st.find_by_username(&s("bob")).unwrap();
    assert_eq!(found.display_name, Some(s("Bob the Builder")));
}

#[test]
fn find_does_not_match_drafts() {
    let mut st = ProfileStore::new();
    assert_eq!(st.put_profile(&s("u1"), &Profile::default()), Ok(()));
    assert_eq!(st.find_by_username(&s("bob")), Err(ProfileError::NotFound));
}

#[test]
fn get_materializes_an_empty_draft() {
    let mut st = ProfileStore::new();
    assert_eq!(st.node_count(), 0);
    let got = st.get_profile(&s("u9")).unwrap();
    assert_eq!(got, Profile::default());
    assert_eq!(st.node_count(), 1);
}

#[test]
fn delete_is_unimplemented_but_still_materializes() {
    let mut st = ProfileStore::new();
    assert_eq!(st.delete_profile(&s("u5")), Err(ProfileError::Unimplemented));
    assert_eq!(st.node_count(), 1);
}

#[test]
fn listing_fails_on_a_corrupted_document() {
    let mut st = ProfileStore::new();
    assert_eq!(st.put_profile(&s("u1"), &named("bob")), Ok(()));
    let mut bad = ProfileNode::new_empty();
    bad.tag_keys = vec![Value::Int(9)];
    st.set_node(&s("u2"), bad);
    assert_eq!(st.list_profiles(), Err(ProfileError::StructuralDecodeError));
}

#[test]
fn find_fails_structurally_only_on_the_matching_document() {
    let mut st = ProfileStore::new();
    let mut bad = ProfileNode::new_empty();
    bad.username = Value::Str(s("mallory"));
    bad.tag_keys = vec![Value::Bool(false)];
    st.set_node(&s("u1"), bad);
    assert_eq!(st.put_profile(&s("u2"), &named("carol")), Ok(()));

    assert_eq!(
        st.find_by_username(&s("mallory")),
        Err(ProfileError::StructuralDecodeError)
    );
    let found = st.find_by_username(&s("carol")).unwrap();
    assert_eq!(found.username, Some(s("carol")));
    assert_eq!(st.find_by_username(&s("nobody")), Err(ProfileError::NotFound));
}

#[test]
fn get_fails_on_a_corrupted_document() {
    let mut st = ProfileStore::new();
    let mut bad = ProfileNode::new_empty();
    bad.tag_keys = vec![Value::Null];
    st.set_node(&s("u1"), bad);
    assert_eq!(st.get_profile(&s("u1")), Err(ProfileError::StructuralDecodeError));
}

#[test]
fn raw_write_can_even_steal_a_username_slot() {
    // The uniqueness protocol only guards writes that go through it: a raw
    // writer of the shared collection can still store a claimed username,
    // and a later protocol write under that node's identifier keeps it.
    let mut st = ProfileStore::new();
    assert_eq!(st.put_profile(&s("u1"), &named("bob")), Ok(()));
    let mut raw = ProfileNode::new_empty();
    raw.username = Value::Str(s("bob"));
    st.set_node(&s("u2"), raw);
    let listed = st.list_profiles().unwrap();
    assert_eq!(listed.len(), 2);
}
