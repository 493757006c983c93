use liked_export::model::{TwitLikeDatum, TwitUserDatum};
use liked_export::registry::UserIdLookup;
use liked_export::resolver::{batch_ids, lookup_urls_for_ids};

fn user(id: &str) -> TwitUserDatum {
    TwitUserDatum {
        created_at: None,
        id: id.to_owned(),
        name: format!("name {id}"),
        username: format!("handle{id}"),
        url: None,
    }
}

fn item(id: &str, author: &str) -> TwitLikeDatum {
    TwitLikeDatum {
        id: id.to_owned(),
        author_id: author.to_owned(),
        text: "text".to_owned(),
        entities: None,
        created_at: "2022-01-01T00:00:00.000Z".to_owned(),
        user: None,
    }
}

#[test]
fn insert_and_lookup() {
    let mut reg = UserIdLookup::new();
    assert!(!reg.has("1"));
    reg.insert("1".to_owned(), None);
    assert!(reg.has("1"));
    assert!(!reg.is_resolved("1"));
    reg.insert("1".to_owned(), Some(user("1")));
    assert!(reg.is_resolved("1"));
    assert_eq!(reg.resolved("1"), Some(user("1")));
    assert_eq!(reg.entries().len(), 1);
}

#[test]
fn noting_authors_adds_unresolved_ids_once() {
    let mut reg = UserIdLookup::new();
    reg.insert("1".to_owned(), Some(user("1")));
    reg.note_authors(&[item("a", "1"), item("b", "2"), item("c", "2"), item("d", "3")]);
    assert_eq!(reg.entries().len(), 3);
    assert_eq!(reg.resolved("1"), Some(user("1")));
    assert_eq!(reg.missing_ids(), vec!["2".to_owned(), "3".to_owned()]);
}

#[test]
fn resolving_twice_gives_the_same_registry() {
    let mut reg = UserIdLookup::new();
    reg.note_authors(&[item("a", "1"), item("b", "2"), item("c", "3")]);
    let reply = vec![user("1"), user("3")];
    reg.merge_resolved(&reply);
    let once: Vec<(String, Option<TwitUserDatum>)> = reg.entries().clone();
    reg.merge_resolved(&reply);
    assert_eq!(reg.entries(), &once);
    assert_eq!(reg.missing_ids(), vec!["2".to_owned()]);
}

#[test]
fn resolved_entry_is_never_replaced() {
    let mut reg = UserIdLookup::new();
    reg.merge_resolved(&[user("1")]);
    let mut other = user("1");
    other.name = "someone else".to_owned();
    reg.merge_resolved(&[other]);
    assert_eq!(reg.resolved("1"), Some(user("1")));
}

#[test]
fn hundred_fifty_missing_ids_take_two_lookups() {
    let ids: Vec<String> = (0..150).map(|i| format!("{}", 1000 + i)).collect();
    let batches = batch_ids(&ids);
    assert_eq!(batches.len(), 2);
    assert_eq!(batches[0].len(), 100);
    assert_eq!(batches[1].len(), 50);
    assert_eq!(batches.concat(), ids);
    let urls = lookup_urls_for_ids(&ids);
    assert_eq!(urls.len(), 2);
    assert!(urls[1].starts_with("https://api.twitter.com/2/users?ids=1100,1101,"));

    let mut reg = UserIdLookup::new();
    let items: Vec<TwitLikeDatum> = ids.iter().map(|i| item("x", i)).collect();
    reg.note_authors(&items);
    let reply: Vec<TwitUserDatum> = ids.iter().take(120).map(|i| user(i)).collect();
    reg.merge_resolved(&reply);
    for id in &ids {
        assert!(reg.has(id));
    }
    assert_eq!(reg.missing_ids().len(), 30);
}

#[test]
fn no_ids_take_no_lookup() {
    let ids: Vec<String> = Vec::new();
    assert!(batch_ids(&ids).is_empty());
    assert!(lookup_urls_for_ids(&ids).is_empty());
}

#[test]
fn registry_file_path() {
    assert_eq!(UserIdLookup::fs_full_path("/tmp/w/.cache"), "/tmp/w/.cache/user_id_lookup.json");
}
