use workshop_walker::model::{Class, Source};
use workshop_walker::properties::{NewProperty, PropertiesError, TaxonomyStore, VoteData};

fn np(item: &str, class: Class, value: &str) -> NewProperty {
    NewProperty {
        workshop_item: item.to_string(),
        class,
        value: value.to_string(),
        note: None,
    }
}

fn vd(item: &str, class: Class, value: &str, score: i8) -> VoteData {
    VoteData { item: item.to_string(), class, value: value.to_string(), score }
}

fn store_with_link() -> TaxonomyStore {
    let mut store = TaxonomyStore::new();
    store.register_item("100".to_string());
    store
        .new_property(np("100", Class::Genre, "fantasy"), Source::System)
        .unwrap();
    store
}

#[test]
fn counters_match_votes_after_each_operation() {
    let mut store = store_with_link();
    assert_eq!(store.links[0].upvote_count, 0);
    assert_eq!(store.links[0].vote_count, 0);

    store
        .vote(vd("100", Class::Genre, "fantasy", 1), "alice".to_string())
        .unwrap();
    assert_eq!(store.links[0].upvote_count, 1);
    assert_eq!(store.links[0].vote_count, 1);

    store
        .vote(vd("100", Class::Genre, "fantasy", -1), "bob".to_string())
        .unwrap();
    assert_eq!(store.links[0].upvote_count, 0);
    assert_eq!(store.links[0].vote_count, 2);

    store
        .remove_vote(vd("100", Class::Genre, "fantasy", 1), "alice".to_string())
        .unwrap();
    assert_eq!(store.links[0].upvote_count, -1);
    assert_eq!(store.links[0].vote_count, 1);

    // the counters always equal the recorded votes
    let sum: i64 = store.links[0].votes.iter().map(|v| v.score as i64).sum();
    assert_eq!(store.links[0].upvote_count, sum);
    assert_eq!(store.links[0].vote_count as usize, store.links[0].votes.len());
}

#[test]
fn same_score_twice_is_idempotent() {
    let mut store = store_with_link();
    store
        .vote(vd("100", Class::Genre, "fantasy", 1), "alice".to_string())
        .unwrap();
    let upvotes = store.links[0].upvote_count;
    let votes = store.links[0].vote_count;
    store
        .vote(vd("100", Class::Genre, "fantasy", 1), "alice".to_string())
        .unwrap();
    assert_eq!(store.links[0].upvote_count, upvotes);
    assert_eq!(store.links[0].vote_count, votes);
}

#[test]
fn flipping_a_vote_moves_upvotes_by_two() {
    let mut store = store_with_link();
    store
        .vote(vd("100", Class::Genre, "fantasy", 1), "alice".to_string())
        .unwrap();
    assert_eq!(store.links[0].upvote_count, 1);
    store
        .vote(vd("100", Class::Genre, "fantasy", -1), "alice".to_string())
        .unwrap();
    assert_eq!(store.links[0].upvote_count, -1);
    assert_eq!(store.links[0].vote_count, 1);
}

#[test]
fn removing_a_vote_never_cast_is_a_no_op() {
    let mut store = store_with_link();
    store
        .vote(vd("100", Class::Genre, "fantasy", 1), "alice".to_string())
        .unwrap();
    let r = store.remove_vote(vd("100", Class::Genre, "fantasy", 1), "nobody".to_string());
    assert!(r.is_ok());
    assert_eq!(store.links[0].upvote_count, 1);
    assert_eq!(store.links[0].vote_count, 1);

    // a removal on a link that does not exist is a no-op too
    let r = store.remove_vote(vd("100", Class::Genre, "missing", 1), "alice".to_string());
    assert!(r.is_ok());
}

#[test]
fn near_duplicate_value_is_a_conflict() {
    let mut store = TaxonomyStore::new();
    store.register_item("100".to_string());
    store
        .new_property(np("100", Class::Genre, "sci-fi"), Source::System)
        .unwrap();
    // "scifi" is a near duplicate of the existing "sci-fi"
    let r = store.new_property(np("100", Class::Genre, "scifi"), Source::User("u1".to_string()));
    assert!(matches!(r, Err(PropertiesError::Conflict)));
    // the exact, already-linked value succeeds and changes nothing
    let links = store.links.len();
    let props = store.properties.len();
    store
        .new_property(np("100", Class::Genre, "sci-fi"), Source::User("u1".to_string()))
        .unwrap();
    assert_eq!(store.links.len(), links);
    assert_eq!(store.properties.len(), props);
}

#[test]
fn value_shape_is_validated() {
    let mut store = TaxonomyStore::new();
    store.register_item("100".to_string());
    let r = store.new_property(np("100", Class::Genre, "x"), Source::System);
    assert!(matches!(r, Err(PropertiesError::BadRequest { .. })));
    let r = store.new_property(
        np("100", Class::Genre, "abcdefghijklmnopqrstuvwxyzabcdefg"),
        Source::System,
    );
    assert!(matches!(r, Err(PropertiesError::BadRequest { .. })));
    let r = store.new_property(np("100", Class::Genre, "route66"), Source::System);
    assert!(matches!(r, Err(PropertiesError::BadRequest { .. })));
    store
        .new_property(np("100", Class::Genre, "Science Fiction!"), Source::System)
        .unwrap();
    assert_eq!(store.properties[0].value, "science fiction!");
}

#[test]
fn vote_validation_and_existence_checks() {
    let mut store = store_with_link();
    let r = store.vote(vd("100", Class::Genre, "fantasy", 0), "alice".to_string());
    assert!(matches!(r, Err(PropertiesError::InvalidVoteScore)));
    let r = store.vote(vd("100", Class::Genre, "absent", 1), "alice".to_string());
    assert!(matches!(r, Err(PropertiesError::BadRequest { .. })));
    let r = store.vote(vd("999", Class::Genre, "fantasy", 1), "alice".to_string());
    assert!(matches!(r, Err(PropertiesError::BadRequest { .. })));
    // property exists, item exists, but no link between them
    store.register_item("200".to_string());
    let r = store.vote(vd("200", Class::Genre, "fantasy", 1), "alice".to_string());
    assert!(matches!(r, Err(PropertiesError::BadRequest { .. })));
}

#[test]
fn linking_an_existing_property_to_a_second_item_succeeds() {
    let mut store = store_with_link();
    store.register_item("200".to_string());
    store
        .new_property(np("200", Class::Genre, "fantasy"), Source::User("u1".to_string()))
        .unwrap();
    assert_eq!(store.properties.len(), 1);
    assert_eq!(store.links.len(), 2);
}
