use pin_cushion::config::{Config, UserBoards};

fn entry(user: &str, boards: &[&str]) -> UserBoards {
    UserBoards {
        user: String::from(user),
        boards: boards.iter().map(|b| String::from(*b)).collect(),
    }
}

#[test]
fn new_configuration_has_no_boards() {
    let cfg = Config::_init("/home/me/pins");
    assert_eq!(cfg.pin_dir(), "/home/me/pins");
    assert_eq!(cfg.default_user(), None);
    assert!(cfg.boards().is_empty());
}

#[test]
fn default_user_is_kept() {
    let cfg = Config::_init_with_default_user("/pins", String::from("me"));
    assert_eq!(cfg.pin_dir(), "/pins");
    assert_eq!(cfg.default_user(), Some("me"));
    assert!(cfg.boards().is_empty());
}

#[test]
fn boards_are_kept_by_owner() {
    let mut cfg = Config::_init("/pins");
    cfg.add_board(String::from("/pins/a/one"), "a", "one", "one");
    cfg.add_board(String::from("/pins/b/two"), "b", "two", "two");
    cfg.add_board(String::from("/pins/a/three"), "a", "three", "three");
    assert_eq!(cfg.boards(), &vec![entry("a", &["one", "three"]), entry("b", &["two"])]);
    assert_eq!(cfg.pin_dir(), "/pins");
    assert_eq!(cfg.default_user(), None);
}

#[test]
fn added_board_gives_its_cushion() {
    let mut cfg = Config::_init_with_default_user("/pins", String::from("me"));
    let cushion = cfg.add_board(String::from("/pins/me/cats"), "me", "cats", "cat-pictures");
    assert_eq!(cushion.user(), "me");
    assert_eq!(cushion._board(), "cats");
    assert_eq!(cushion.url(), "https://www.pinterest.com/me/cat-pictures.rss");
    assert_eq!(cushion.path(), "/pins/me/cats");
    assert_eq!(cushion.latest_download(), "");
    assert_eq!(cfg.boards(), &vec![entry("me", &["cats"])]);
    assert_eq!(cfg.default_user(), Some("me"));
}

#[test]
fn same_board_added_twice_stands_twice() {
    let mut cfg = Config::_init("/pins");
    cfg.add_board(String::from("/pins/a/one"), "a", "one", "one");
    cfg.add_board(String::from("/pins/a/one"), "a", "one", "one");
    assert_eq!(cfg.boards(), &vec![entry("a", &["one", "one"])]);
}

#[test]
fn registered_board_stands_behind_the_others_of_its_owner() {
    let mut cfg = Config::_init("/pins");
    cfg.register("a", "one");
    cfg.register("b", "two");
    cfg.register("b", "three");
    cfg.register("a", "four");
    cfg.register("c", "five");
    assert_eq!(
        cfg.boards(),
        &vec![entry("a", &["one", "four"]), entry("b", &["two", "three"]), entry("c", &["five"])]
    );
}
