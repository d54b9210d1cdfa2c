//! The configuration: where boards are kept on disk, and which boards of
//! which owners are followed.

use vstd::prelude::*;
use vstd::string::*;
use crate::cushion::{spec_feed_url, Cushion, CushionView};
use crate::text::str_eq;

verus! {

/// The boards of one owner, in the order in which they were added.
#[derive(Debug, PartialEq, Eq)]
pub struct UserBoards {
    pub user: String,
    pub boards: Vec<String>,
}

/// A [`UserBoards`] with its strings as sequences of characters.
pub struct UserBoardsView {
    pub user: Seq<char>,
    pub boards: Seq<Seq<char>>,
}

impl View for UserBoards {
    type V = UserBoardsView;

    open spec fn view(&self) -> UserBoardsView {
        UserBoardsView { user: self.user@, boards: self.boards.deep_view() }
    }
}

impl DeepView for UserBoards {
    type V = UserBoardsView;

    open spec fn deep_view(&self) -> UserBoardsView {
        self@
    }
}

/// The configuration. The boards are kept by owner, each owner once, in the
/// order in which the owners were first named.
#[derive(Debug)]
pub struct Config {
    pin_dir: String,
    default_user: Option<String>,
    boards: Vec<UserBoards>,
}

/// A [`Config`] with its strings as sequences of characters.
pub struct ConfigView {
    pub pin_dir: Seq<char>,
    pub default_user: Option<Seq<char>>,
    pub boards: Seq<UserBoardsView>,
}

impl View for Config {
    type V = ConfigView;

    closed spec fn view(&self) -> ConfigView {
        ConfigView {
            pin_dir: self.pin_dir@,
            default_user: self.default_user.deep_view(),
            boards: self.boards.deep_view(),
        }
    }
}

/// No owner stands twice in `boards`.
pub open spec fn distinct_users(boards: Seq<UserBoardsView>) -> bool {
    forall|i: int, j: int|
        0 <= i < j < boards.len() ==> (#[trigger] boards[i]).user != (#[trigger] boards[j]).user
}

/// The place of `user` in `boards`: that of the first entry of this owner,
/// or the length of `boards` if there is none.
pub open spec fn user_index(boards: Seq<UserBoardsView>, user: Seq<char>) -> int
    decreases boards.len(),
{
    if boards.len() == 0 || boards[0].user == user {
        0
    } else {
        1 + user_index(boards.drop_first(), user)
    }
}

/// `boards` with `board` added for `user`: at the end of the boards of this
/// owner, or as the only board of a new owner at the end.
pub open spec fn spec_add_board(
    boards: Seq<UserBoardsView>,
    user: Seq<char>,
    board: Seq<char>,
) -> Seq<UserBoardsView> {
    let i = user_index(boards, user);
    if 0 <= i < boards.len() {
        boards.update(i, UserBoardsView { user, boards: boards[i].boards.push(board) })
    } else {
        boards.push(UserBoardsView { user, boards: seq![board] })
    }
}

/// The place of an owner is the one place that has this owner with no entry
/// of the owner in front of it, or the length where no entry is of the owner.
pub proof fn lemma_user_index_is(boards: Seq<UserBoardsView>, user: Seq<char>, k: int)
    requires
        0 <= k <= boards.len(),
        forall|i: int| 0 <= i < k ==> (#[trigger] boards[i]).user != user,
        k < boards.len() ==> boards[k].user == user,
    ensures
        user_index(boards, user) == k,
    decreases boards.len(),
{
    if k > 0 {
        lemma_user_index_is(boards.drop_first(), user, k - 1);
    }
}

/// The place that [`user_index`] gives is that of the first entry of the
/// owner: no entry in front of it is of this owner, and the entry there is.
pub proof fn lemma_user_index(boards: Seq<UserBoardsView>, user: Seq<char>)
    ensures
        0 <= user_index(boards, user) <= boards.len(),
        forall|i: int| 0 <= i < user_index(boards, user) ==> (#[trigger] boards[i]).user != user,
        user_index(boards, user) < boards.len() ==> boards[user_index(boards, user)].user == user,
    decreases boards.len(),
{
    if boards.len() > 0 && boards[0].user != user {
        let rest = boards.drop_first();
        lemma_user_index(rest, user);
        assert forall|i: int| 0 <= i < user_index(boards, user) implies (#[trigger] boards[i]).user
            != user by {
            if i > 0 {
                assert(boards[i] == rest[i - 1]);
            }
        }
    }
}

/// Adding a board keeps every owner in the list once.
pub proof fn lemma_add_board_keeps_users_distinct(
    boards: Seq<UserBoardsView>,
    user: Seq<char>,
    board: Seq<char>,
)
    requires
        distinct_users(boards),
    ensures
        distinct_users(spec_add_board(boards, user, board)),
{
    lemma_user_index(boards, user);
}

impl Config {
    #[verifier::type_invariant]
    spec fn users_once(self) -> bool {
        distinct_users(self.boards.deep_view())
    }

    /// A configuration without boards that keeps its boards under `pin_dir`.
    pub fn _init(pin_dir: &str) -> (cfg: Config)
        ensures
            cfg@ == (ConfigView {
                pin_dir: pin_dir@,
                default_user: None,
                boards: Seq::empty(),
            }),
    {
        let cfg = Config {
            pin_dir: String::from_str(pin_dir),
            default_user: None,
            boards: Vec::new(),
        };
        assert(cfg.boards.deep_view() =~= Seq::empty());
        cfg
    }

    /// A configuration without boards that keeps its boards under `pin_dir`
    /// and takes `default_user` as the owner where none is named.
    pub fn _init_with_default_user(pin_dir: &str, default_user: String) -> (cfg: Config)
        ensures
            cfg@ == (ConfigView {
                pin_dir: pin_dir@,
                default_user: Some(default_user@),
                boards: Seq::empty(),
            }),
    {
        let cfg = Config {
            pin_dir: String::from_str(pin_dir),
            default_user: Some(default_user),
            boards: Vec::new(),
        };
        assert(cfg.boards.deep_view() =~= Seq::empty());
        cfg
    }

    /// Enters the board `board` of `user` in the list of boards: behind the
    /// other boards of this owner, or as the first board of a new owner.
    pub fn register(&mut self, user: &str, board: &str)
        ensures
            final(self)@ == (ConfigView {
                boards: spec_add_board(old(self)@.boards, user@, board@),
                ..old(self)@
            }),
    {
        proof {
            use_type_invariant(&*self);
            lemma_add_board_keeps_users_distinct(self.boards.deep_view(), user@, board@);
        }
        let mut entries: Vec<UserBoards> = Vec::new();
        core::mem::swap(&mut self.boards, &mut entries);
        let ghost before = entries.deep_view();
        let mut i: usize = 0;
        while i < entries.len()
            invariant
                0 <= i <= entries.len(),
                before == entries.deep_view(),
                forall|j: int| 0 <= j < i ==> (#[trigger] before[j]).user != user@,
            ensures
                0 <= i <= entries.len(),
                before == entries.deep_view(),
                forall|j: int| 0 <= j < i ==> (#[trigger] before[j]).user != user@,
                i < entries.len() ==> before[i as int].user == user@,
            decreases entries.len() - i,
        {
            if str_eq(entries[i].user.as_str(), user) {
                break;
            }
            i = i + 1;
        }
        proof {
            lemma_user_index_is(before, user@, i as int);
        }
        if i < entries.len() {
            let mut entry = entries.remove(i);
            entry.boards.push(String::from_str(board));
            assert(entry@ == (UserBoardsView {
                user: user@,
                boards: before[i as int].boards.push(board@),
            })) by {
                assert(entry.boards.deep_view() =~= before[i as int].boards.push(board@));
            }
            entries.insert(i, entry);
        } else {
            let mut boards: Vec<String> = Vec::new();
            boards.push(String::from_str(board));
            assert(boards.deep_view() =~= seq![board@]);
            entries.push(UserBoards { user: String::from_str(user), boards });
        }
        assert(entries.deep_view() =~= spec_add_board(before, user@, board@));
        self.boards = entries;
    }

    /// Adds the board `board` of `user` to the configuration and gives the
    /// cushion for it, which is kept in the directory `path`. `url` is the
    /// address of the feed of the board or the last path segment of the
    /// address of the board.
    pub fn add_board(&mut self, path: String, user: &str, board: &str, url: &str) -> (cushion:
        Cushion)
        ensures
            final(self)@ == (ConfigView {
                boards: spec_add_board(old(self)@.boards, user@, board@),
                ..old(self)@
            }),
            cushion@ == (CushionView {
                user: user@,
                board: board@,
                url: spec_feed_url(user@, url@),
                path: path@,
                latest_download: Seq::<char>::empty(),
            }),
    {
        self.register(user, board);
        Cushion::new(path, String::from_str(user), String::from_str(board), String::from_str(url))
    }

    /// The boards that are followed, owner by owner, no owner twice.
    pub fn boards(&self) -> (boards: &Vec<UserBoards>)
        ensures
            boards.deep_view() == self@.boards,
            distinct_users(boards.deep_view()),
    {
        proof {
            use_type_invariant(self);
        }
        &self.boards
    }

    /// The owner that is taken where none is named, if one is configured.
    pub fn default_user(&self) -> (user: Option<&str>)
        ensures
            user.deep_view() == self@.default_user,
    {
        match &self.default_user {
            Some(user) => Some(user.as_str()),
            None => None,
        }
    }

    /// The directory under which the boards are kept.
    pub fn pin_dir(&self) -> (dir: &str)
        ensures
            dir@ == self@.pin_dir,
    {
        self.pin_dir.as_str()
    }
}

} // verus!
