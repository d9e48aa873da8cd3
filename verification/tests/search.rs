use warp_context::search::{
    floor_char_boundary, is_valid_search_query, safe_truncate, AIContextMenu,
    AIContextMenuCategory, EmbeddingSearchMenu, FuzzyMatchAIQueryResults,
};

#[test]
fn floor_boundary_never_splits_a_character() {
    let s = "aé€b"; // bytes: a(1) é(2) €(3) b(1)
    assert_eq!(floor_char_boundary(s, 0), 0);
    assert_eq!(floor_char_boundary(s, 1), 1);
    assert_eq!(floor_char_boundary(s, 2), 1);
    assert_eq!(floor_char_boundary(s, 3), 3);
    assert_eq!(floor_char_boundary(s, 4), 3);
    assert_eq!(floor_char_boundary(s, 5), 3);
    assert_eq!(floor_char_boundary(s, 6), 6);
    assert_eq!(floor_char_boundary(s, 7), 7);
    assert_eq!(floor_char_boundary(s, 100), 7);
    assert_eq!(floor_char_boundary("", 3), 0);
}

#[test]
fn safe_truncate_keeps_whole_characters() {
    let mut s = String::from("aé€b");
    safe_truncate(&mut s, 5);
    assert_eq!(s, "aé");
    let mut s = String::from("hello");
    safe_truncate(&mut s, 2);
    assert_eq!(s, "he");
    let mut s = String::from("hello");
    safe_truncate(&mut s, 5);
    assert_eq!(s, "hello");
    safe_truncate(&mut s, 50);
    assert_eq!(s, "hello");
    let mut s = String::from("€");
    safe_truncate(&mut s, 1);
    assert_eq!(s, "");
}

#[test]
fn inert_menus_do_nothing() {
    let mut menu = AIContextMenu::new3(1, "two", 3.0);
    assert!(!menu.should_render(()));
    assert!(AIContextMenu::get_categories_for_mode(1, 2, 3, 4, 5).is_empty());
    let mut ctx = 7u32;
    menu.set_input_mode("mode", &mut ctx);
    menu.update_search_query("query", &mut ctx);
    assert_eq!(ctx, 7);
    assert!(!is_valid_search_query("q", 1, true));
    assert!(FuzzyMatchAIQueryResults::try_match("a", "b").is_none());
    assert!(matches!(AIContextMenuCategory::default(), AIContextMenuCategory::Default));
    let mut m = EmbeddingSearchMenu::default();
    m.reset_state(());
    m.set_embedding_space(1, ());
}
