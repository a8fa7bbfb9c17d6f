use tour_editor::editor::EditorState;
use tour_editor::registry::SessionRegistry;

#[test]
fn take_and_store_round_trip() {
    let mut reg = SessionRegistry::new();
    let user = "amira".to_string();
    assert!(!reg.contains(&user, 7));
    assert!(reg.take(&user, 7).is_none());

    reg.store(user.clone(), 7, EditorState::new(7, user.clone()));
    assert!(reg.contains(&user, 7));
    assert_eq!(reg.len(), 1);

    let state = reg.take(&user, 7).expect("session was stored");
    assert_eq!(state.tour_id, 7);
    assert_eq!(state.username, "amira");
    // checked out: no longer visible
    assert!(!reg.contains(&user, 7));
    assert_eq!(reg.len(), 0);

    reg.store(user.clone(), 7, state);
    assert!(reg.contains(&user, 7));
}

#[test]
fn store_replaces_same_key() {
    let mut reg = SessionRegistry::new();
    let user = "amira".to_string();
    reg.store(user.clone(), 7, EditorState::new(7, user.clone()));
    reg.store(user.clone(), 7, EditorState::new(7, user.clone()));
    // one entry per key: the second store replaced the first
    assert_eq!(reg.len(), 1);
}

#[test]
fn keys_are_per_user_and_tour() {
    let mut reg = SessionRegistry::new();
    let amira = "amira".to_string();
    let beka = "beka".to_string();
    reg.store(amira.clone(), 1, EditorState::new(1, amira.clone()));
    reg.store(amira.clone(), 2, EditorState::new(2, amira.clone()));
    reg.store(beka.clone(), 1, EditorState::new(1, beka.clone()));
    assert_eq!(reg.len(), 3);
    assert!(reg.contains(&amira, 1));
    assert!(reg.contains(&amira, 2));
    assert!(reg.contains(&beka, 1));
    assert!(!reg.contains(&beka, 2));
}

#[test]
fn remove_user_evicts_all_their_tours() {
    let mut reg = SessionRegistry::new();
    let amira = "amira".to_string();
    let beka = "beka".to_string();
    reg.store(amira.clone(), 1, EditorState::new(1, amira.clone()));
    reg.store(amira.clone(), 2, EditorState::new(2, amira.clone()));
    reg.store(beka.clone(), 3, EditorState::new(3, beka.clone()));

    reg.remove_user(&amira);
    // every session of that user is gone, not just the active tour
    assert!(!reg.contains(&amira, 1));
    assert!(!reg.contains(&amira, 2));
    assert!(reg.contains(&beka, 3));
    assert_eq!(reg.len(), 1);
}
