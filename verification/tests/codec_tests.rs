use profile_store::Profile;
use profile_store::ProfileError;
use profile_store::ProfileNode;
use profile_store::Value;
use profile_store::WorkCapacity;
use profile_store::WorkCompensation;

fn s(x: &str) -> String {
    x.to_owned()
}

fn full_profile() -> Profile {
    Profile {
        username: Some(s("alice")),
        display_name: Some(s("Alice")),
        contact_info: Some(s("alice@example.com")),
        avatar_seed: Some(s("seed-1")),
        location: Some(s("Lisbon")),
        tags: vec![s("gardening"), s("rust")],
        work_capacity: Some(WorkCapacity::FullTime),
        work_compensation: Some(WorkCompensation::Volunteer),
        bio: Some(s("hello")),
    }
}

fn encode(p: &Profile) -> ProfileNode {
    let mut node = ProfileNode::new_empty();
    p.write_to_node(&mut node);
    node
}

fn sorted(mut v: Vec<String>) -> Vec<String> {
    v.sort();
    v
}

#[test]
fn round_trip_fully_populated() {
    let p = full_profile();
    let q = Profile::from_node(&encode(&p)).unwrap();
    assert_eq!(q.username, p.username);
    assert_eq!(q.display_name, p.display_name);
    assert_eq!(q.contact_info, p.contact_info);
    assert_eq!(q.avatar_seed, p.avatar_seed);
    assert_eq!(q.location, p.location);
    assert_eq!(q.bio, p.bio);
    assert_eq!(q.work_capacity, p.work_capacity);
    assert_eq!(q.work_compensation, p.work_compensation);
    assert_eq!(sorted(q.tags), sorted(p.tags));
}

#[test]
fn avatar_seed_defaults_to_username() {
    let mut p = full_profile();
    p.username = Some(s("alice"));
    p.avatar_seed = None;
    let q = Profile::from_node(&encode(&p)).unwrap();
    assert_eq!(q.avatar_seed, Some(s("alice")));
}

#[test]
fn avatar_seed_stays_absent_without_username() {
    let mut p = full_profile();
    p.username = None;
    p.avatar_seed = None;
    let q = Profile::from_node(&encode(&p)).unwrap();
    assert_eq!(q.avatar_seed, None);
}

#[test]
fn absent_fields_encode_as_null() {
    let node = encode(&Profile::default());
    assert_eq!(node.username, Value::Null);
    assert_eq!(node.display_name, Value::Null);
    assert_eq!(node.contact_info, Value::Null);
    assert_eq!(node.avatar_seed, Value::Null);
    assert_eq!(node.location, Value::Null);
    assert_eq!(node.bio, Value::Null);
    assert_eq!(node.work_capacity, Value::Null);
    assert_eq!(node.work_compensation, Value::Null);
    assert!(node.tag_keys.is_empty());
}

#[test]
fn enumeration_tokens_are_fixed() {
    let mut p = Profile::default();
    p.work_capacity = Some(WorkCapacity::FullTime);
    p.work_compensation = Some(WorkCompensation::Paid);
    let node = encode(&p);
    assert_eq!(node.work_capacity, Value::Str(s("full_time")));
    assert_eq!(node.work_compensation, Value::Str(s("paid")));

    p.work_capacity = Some(WorkCapacity::PartTime);
    p.work_compensation = Some(WorkCompensation::Volunteer);
    let node = encode(&p);
    assert_eq!(node.work_capacity, Value::Str(s("part_time")));
    assert_eq!(node.work_compensation, Value::Str(s("volunteer")));
}

#[test]
fn unknown_enumeration_token_decodes_to_absent() {
    let mut node = ProfileNode::new_empty();
    node.work_capacity = Value::Str(s("sometimes"));
    node.work_compensation = Value::Str(s("exposure"));
    let q = Profile::from_node(&node).unwrap();
    assert_eq!(q.work_capacity, None);
    assert_eq!(q.work_compensation, None);
}

#[test]
fn wrong_typed_scalar_decodes_to_absent() {
    let mut node = ProfileNode::new_empty();
    node.username = Value::Int(7);
    node.bio = Value::Bool(true);
    node.display_name = Value::Str(s("Dee"));
    let q = Profile::from_node(&node).unwrap();
    assert_eq!(q.username, None);
    assert_eq!(q.bio, None);
    assert_eq!(q.display_name, Some(s("Dee")));
}

#[test]
fn non_string_tag_key_is_a_structural_error() {
    let mut node = ProfileNode::new_empty();
    node.tag_keys = vec![Value::Str(s("a")), Value::Int(3)];
    let r = Profile::from_node(&node);
    assert_eq!(r, Err(ProfileError::StructuralDecodeError));
}

#[test]
fn duplicate_tags_collapse_to_one_key() {
    let mut p = Profile::default();
    p.tags = vec![s("a"), s("a"), s("b"), s("a")];
    let node = encode(&p);
    assert_eq!(
        node.tag_keys,
        vec![Value::Str(s("a")), Value::Str(s("b"))]
    );
    let q = Profile::from_node(&node).unwrap();
    assert_eq!(q.tags, vec![s("a"), s("b")]);
}

#[test]
fn tag_keys_decode_in_store_order() {
    let mut node = ProfileNode::new_empty();
    node.tag_keys = vec![Value::Str(s("z")), Value::Str(s("a"))];
    let q = Profile::from_node(&node).unwrap();
    assert_eq!(q.tags, vec![s("z"), s("a")]);
}
