use valence::player_list::{GameMode, PlayerList};
use valence::player_textures::SignedPlayerTextures;

fn sorted<T: Ord + Clone>(v: &[T]) -> Vec<T> {
    let mut v = v.to_vec();
    v.sort();
    v
}

fn textures(skin: &str) -> Option<SignedPlayerTextures> {
    let t = SignedPlayerTextures::new(vec![1], vec![2], format!("http://textures.test/{skin}"), None);
    assert!(t.is_some());
    t
}

#[test]
fn player_list_insert_and_update() {
    let mut l = PlayerList::new();
    assert!(l.insert(1, "steve".into(), None, GameMode::Survival, 5, None));
    assert!(l.insert(2, "alex".into(), textures("a"), GameMode::Creative, 7, None));
    let u = l.update_packets();
    assert_eq!(sorted(&u.added), vec![1, 2]);
    assert!(u.removed.is_empty() && u.game_mode.is_empty() && u.ping.is_empty());
    assert!(!u.header_and_footer);

    l.end_tick();
    let u = l.update_packets();
    assert!(u.added.is_empty() && u.removed.is_empty() && u.display_name.is_empty());

    // The same player again: the entry is updated.
    assert!(!l.insert(1, "steve".into(), None, GameMode::Creative, 9, Some("Steve".into())));
    assert_eq!(l.entry(1).unwrap().game_mode(), GameMode::Creative);
    // Another player with the same UUID: the old entry is replaced.
    assert!(!l.insert(2, "alex".into(), textures("b"), GameMode::Creative, 7, None));
    let u = l.update_packets();
    assert_eq!(u.removed, vec![2]);
    assert_eq!(u.added, vec![2]);
    assert_eq!(u.game_mode, vec![(1, GameMode::Creative)]);
    assert_eq!(u.ping, vec![(1, 9)]);
    assert_eq!(u.display_name, vec![1]);
}

#[test]
fn player_list_remove_retain_clear() {
    let mut l = PlayerList::new();
    for id in 0..5u128 {
        l.insert(id, format!("p{id}"), None, GameMode::Survival, id as i32, None);
    }
    l.end_tick();
    assert!(l.remove(3));
    assert!(!l.remove(3));
    l.retain(|id, e| id != 0 && e.ping() != 4);
    assert_eq!(sorted(&l.uuids()), vec![1, 2]);
    assert_eq!(sorted(&l.update_packets().removed), vec![0, 3, 4]);
    l.clear();
    assert!(l.uuids().is_empty());
    assert!(l.entry(1).is_none());
    assert_eq!(sorted(&l.update_packets().removed), vec![0, 1, 2, 3, 4]);
}

#[test]
fn player_list_header_and_footer() {
    let mut l = PlayerList::new();
    assert!(!l.has_header_or_footer());
    l.set_header(String::new());
    assert!(!l.update_packets().header_and_footer);
    l.set_header("Welcome".into());
    assert_eq!(l.header(), "Welcome");
    assert!(l.has_header_or_footer());
    assert!(l.update_packets().header_and_footer);
    l.end_tick();
    l.set_footer("bye".into());
    assert_eq!(l.footer(), "bye");
    assert!(l.update_packets().header_and_footer);
}
