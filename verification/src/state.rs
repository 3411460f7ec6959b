//! The persistence gateway: the two relations (`games`, `players`) the
//! engine works over, with their row invariants, and the read and write
//! operations every engine command is built from. Each engine command calls a
//! group of these operations on one `&mut Store`, so a command is atomic by
//! construction: there is no partially applied state to observe.

use vstd::prelude::*;

verus! {

/// The minimum board width and height a game row may hold.
pub const MIN_BOARD: u8 = 8;

/// One community's game board: its display name and grid dimensions.
#[derive(Debug)]
pub struct GameServer {
    pub guild_id: u64,
    pub name: String,
    pub width: u8,
    pub height: u8,
}

/// One community member's avatar: a cell on the board, a health value, an
/// action-point balance, and a vision radius.
#[derive(Debug, Clone, Copy, PartialEq, Eq, Structural)]
pub struct GamePlayer {
    pub guild_id: u64,
    pub user_id: u64,
    pub pos_x: u8,
    pub pos_y: u8,
    pub health: u8,
    pub actions: u8,
    pub range: u8,
}

/// The durable state: at most one game per community, at most one player per
/// community and user.
pub struct Store {
    pub games: Vec<GameServer>,
    pub players: Vec<GamePlayer>,
}

impl Store {
    /// No two game rows share a community.
    pub open spec fn games_unique(self) -> bool {
        forall|i: int, j: int|
            0 <= i < j < self.games@.len() ==> self.games@[i].guild_id != self.games@[j].guild_id
    }

    /// No two player rows share a community and user.
    pub open spec fn players_unique(self) -> bool {
        forall|i: int, j: int|
            0 <= i < j < self.players@.len() ==> !(self.players@[i].guild_id
                == self.players@[j].guild_id && self.players@[i].user_id
                == self.players@[j].user_id)
    }

    /// A player row is anchored: its community has a game row, its position
    /// lies on that game's board, and its health and range are in range.
    pub open spec fn player_anchored(self, p: GamePlayer) -> bool {
        &&& exists|i: int|
            0 <= i < self.games@.len() && self.games@[i].guild_id == p.guild_id && p.pos_x
                < self.games@[i].width && p.pos_y < self.games@[i].height
        &&& p.health <= 3
        &&& 1 <= p.range <= 3
    }

    /// Every game row's board is at least `MIN_BOARD` by `MIN_BOARD`.
    pub open spec fn games_sized(self) -> bool {
        forall|i: int|
            0 <= i < self.games@.len() ==> (#[trigger] self.games@[i]).width >= MIN_BOARD
                && self.games@[i].height >= MIN_BOARD
    }

    /// Well-formedness: both uniqueness invariants, every game row sized, and
    /// every player row anchored to an existing game.
    pub open spec fn wf(self) -> bool {
        &&& self.games_unique()
        &&& self.players_unique()
        &&& self.games_sized()
        &&& forall|k: int|
            0 <= k < self.players@.len() ==> self.player_anchored(#[trigger] self.players@[k])
    }

    /// A game row exists for this community.
    pub open spec fn has_game(self, guild_id: u64) -> bool {
        exists|i: int| 0 <= i < self.games@.len() && self.games@[i].guild_id == guild_id
    }

    /// `g` is one of the game rows.
    pub open spec fn game_row(self, g: GameServer) -> bool {
        exists|i: int| 0 <= i < self.games@.len() && self.games@[i] == g
    }

    /// A player row exists for this community and user.
    pub open spec fn has_player(self, guild_id: u64, user_id: u64) -> bool {
        exists|i: int|
            0 <= i < self.players@.len() && self.players@[i].guild_id == guild_id
                && self.players@[i].user_id == user_id
    }

    /// `p` is one of the player rows.
    pub open spec fn player_row(self, p: GamePlayer) -> bool {
        exists|i: int| 0 <= i < self.players@.len() && self.players@[i] == p
    }

    /// Both relations hold exactly the rows of `other`: the observable state
    /// is unchanged.
    pub open spec fn unchanged_from(self, other: Store) -> bool {
        self.games@ == other.games@ && self.players@ == other.players@
    }

    /// The game row of this community; meaningful when `has_game` holds and
    /// the rows are unique.
    pub open spec fn game_at(self, guild_id: u64) -> GameServer {
        self.games@[choose|i: int|
            0 <= i < self.games@.len() && self.games@[i].guild_id == guild_id]
    }

    /// The player row of this community and user; meaningful when
    /// `has_player` holds and the rows are unique.
    pub open spec fn player_at(self, guild_id: u64, user_id: u64) -> GamePlayer {
        self.players@[choose|i: int|
            0 <= i < self.players@.len() && self.players@[i].guild_id == guild_id
                && self.players@[i].user_id == user_id]
    }

    /// With unique game rows, any row is the one `game_at` denotes for its
    /// community.
    pub proof fn lemma_game_at(self, i: int)
        requires
            self.games_unique(),
            0 <= i < self.games@.len(),
        ensures
            self.has_game(self.games@[i].guild_id),
            self.game_at(self.games@[i].guild_id) == self.games@[i],
    {
        let g = self.games@[i].guild_id;
        assert(self.has_game(g));
        let j = choose|j: int| 0 <= j < self.games@.len() && self.games@[j].guild_id == g;
        assert(j == i);
    }

    /// With unique player rows, any row is the one `player_at` denotes for
    /// its community and user.
    pub proof fn lemma_player_at(self, i: int)
        requires
            self.players_unique(),
            0 <= i < self.players@.len(),
        ensures
            self.has_player(self.players@[i].guild_id, self.players@[i].user_id),
            self.player_at(self.players@[i].guild_id, self.players@[i].user_id)
                == self.players@[i],
    {
        let g = self.players@[i].guild_id;
        let u = self.players@[i].user_id;
        assert(self.has_player(g, u));
        let j = choose|j: int|
            0 <= j < self.players@.len() && self.players@[j].guild_id == g
                && self.players@[j].user_id == u;
        assert(j == i);
    }

    /// Well-formedness with one community's players possibly left dangling:
    /// what holds between deleting a community's game row and deleting its
    /// player rows.
    pub open spec fn wf_except(self, guild_id: u64) -> bool {
        &&& self.games_unique()
        &&& self.players_unique()
        &&& self.games_sized()
        &&& forall|k: int|
            0 <= k < self.players@.len() ==> (#[trigger] self.players@[k]).guild_id == guild_id
                || self.player_anchored(self.players@[k])
    }

    /// An empty store: no games, no players.
    pub fn new() -> (s: Store)
        ensures
            s.wf(),
            s.games@.len() == 0,
            s.players@.len() == 0,
    {
        Store { games: Vec::new(), players: Vec::new() }
    }

    /// The game row for this community, if one exists.
    pub fn get_game(&self, guild_id: u64) -> (r: Option<GameServer>)
        ensures
            match r {
                Some(g) => g.guild_id == guild_id && self.game_row(g),
                None => !self.has_game(guild_id),
            },
    {
        let n = self.games.len();
        let mut i: usize = 0;
        while i < n
            invariant
                n == self.games@.len(),
                i <= n,
                forall|k: int| 0 <= k < i ==> self.games@[k].guild_id != guild_id,
            decreases n - i,
        {
            if self.games[i].guild_id == guild_id {
                let g = GameServer {
                    guild_id: self.games[i].guild_id,
                    name: self.games[i].name.clone(),
                    width: self.games[i].width,
                    height: self.games[i].height,
                };
                proof {
                    assert(self.games@[i as int] == g);
                }
                return Some(g);
            }
            i += 1;
        }
        None
    }

    /// The player row for this community and user, if one exists.
    pub fn get_player(&self, guild_id: u64, user_id: u64) -> (r: Option<GamePlayer>)
        ensures
            match r {
                Some(p) => p.guild_id == guild_id && p.user_id == user_id && self.player_row(p),
                None => !self.has_player(guild_id, user_id),
            },
    {
        let n = self.players.len();
        let mut i: usize = 0;
        while i < n
            invariant
                n == self.players@.len(),
                i <= n,
                forall|k: int|
                    0 <= k < i ==> !(self.players@[k].guild_id == guild_id
                        && self.players@[k].user_id == user_id),
            decreases n - i,
        {
            let p = self.players[i];
            if p.guild_id == guild_id && p.user_id == user_id {
                return Some(p);
            }
            i += 1;
        }
        None
    }

    /// Inserts a game row for this community; fails, changing nothing, if one
    /// already exists.
    pub fn create_game(&mut self, guild_id: u64, name: String, width: u8, height: u8) -> (r:
        bool)
        requires
            old(self).wf(),
            width >= MIN_BOARD,
            height >= MIN_BOARD,
        ensures
            final(self).wf(),
            r == !old(self).has_game(guild_id),
            r ==> final(self).games@ == old(self).games@.push(
                GameServer { guild_id, name, width, height },
            ),
            !r ==> final(self).games@ == old(self).games@,
            final(self).players@ == old(self).players@,
    {
        if self.contains_game(guild_id) {
            return false;
        }
        let g = GameServer { guild_id, name, width, height };
        self.games.push(g);
        proof {
            let pre = old(self).games@;
            assert forall|k: int|
                0 <= k < self.players@.len() implies self.player_anchored(
                #[trigger] self.players@[k],
            ) by {
                let p = self.players@[k];
                assert(old(self).player_anchored(p));
                let i = choose|i: int|
                    0 <= i < pre.len() && pre[i].guild_id == p.guild_id && p.pos_x < pre[i].width
                        && p.pos_y < pre[i].height;
                assert(self.games@[i].guild_id == p.guild_id && p.pos_x < self.games@[i].width
                    && p.pos_y < self.games@[i].height);
            }
        }
        true
    }

    /// Whether a game row exists for this community.
    pub fn contains_game(&self, guild_id: u64) -> (r: bool)
        ensures
            r == self.has_game(guild_id),
    {
        let n = self.games.len();
        let mut i: usize = 0;
        while i < n
            invariant
                n == self.games@.len(),
                i <= n,
                forall|k: int| 0 <= k < i ==> self.games@[k].guild_id != guild_id,
            decreases n - i,
        {
            if self.games[i].guild_id == guild_id {
                return true;
            }
            i += 1;
        }
        false
    }

    /// Inserts a player row; fails, changing nothing, if one already exists
    /// for the same community and user. The row must be anchored to an
    /// existing game.
    pub fn insert_player(&mut self, p: GamePlayer) -> (r: bool)
        requires
            old(self).wf(),
            old(self).player_anchored(p),
        ensures
            final(self).wf(),
            r == !old(self).has_player(p.guild_id, p.user_id),
            r ==> final(self).players@ == old(self).players@.push(p),
            !r ==> final(self).players@ == old(self).players@,
            final(self).games@ == old(self).games@,
    {
        if self.get_player(p.guild_id, p.user_id).is_some() {
            return false;
        }
        self.players.push(p);
        proof {
            let pre = old(self).games@;
            assert forall|k: int|
                0 <= k < self.players@.len() implies self.player_anchored(
                #[trigger] self.players@[k],
            ) by {
                let q = self.players@[k];
                if k < old(self).players@.len() {
                    assert(q == old(self).players@[k]);
                    assert(old(self).player_anchored(q));
                } else {
                    assert(q == p);
                    assert(old(self).player_anchored(q));
                }
                let i = choose|i: int|
                    0 <= i < pre.len() && pre[i].guild_id == q.guild_id && q.pos_x < pre[i].width
                        && q.pos_y < pre[i].height;
                assert(self.games@[i].guild_id == q.guild_id && q.pos_x < self.games@[i].width
                    && q.pos_y < self.games@[i].height);
            }
        }
        true
    }

    /// Deletes this community's game row; the community's player rows are
    /// left for `delete_players`, so only `wf_except` holds afterwards.
    /// Returns the number of rows deleted: one if the game existed, else
    /// zero.
    pub fn delete_game(&mut self, guild_id: u64) -> (n: usize)
        requires
            old(self).wf(),
        ensures
            final(self).wf_except(guild_id),
            n <= 1,
            (n == 1) == old(self).has_game(guild_id),
            n == 0 ==> final(self).games@ == old(self).games@,
            n == 1 ==> exists|i: int|
                0 <= i < old(self).games@.len() && old(self).games@[i].guild_id == guild_id
                    && final(self).games@ == old(self).games@.remove(i),
            !final(self).has_game(guild_id),
            forall|g2: u64|
                g2 != guild_id ==> final(self).has_game(g2) == old(self).has_game(g2),
            forall|g: GameServer|
                g.guild_id != guild_id ==> final(self).game_row(g) == old(self).game_row(g),
            final(self).players@ == old(self).players@,
    {
        let n = self.games.len();
        let mut i: usize = 0;
        while i < n
            invariant
                n == self.games@.len(),
                i <= n,
                old(self).wf(),
                self.games@ == old(self).games@,
                self.players@ == old(self).players@,
                forall|k: int| 0 <= k < i ==> self.games@[k].guild_id != guild_id,
            decreases n - i,
        {
            if self.games[i].guild_id == guild_id {
                self.games.remove(i);
                proof {
                    let pre = old(self).games@;
                    let post = self.games@;
                    assert forall|k: int| 0 <= k < post.len() implies (if k < i {
                        post[k] == pre[k]
                    } else {
                        post[k] == pre[k + 1]
                    }) by {
                        assert(post == pre.subrange(0, i as int) + pre.subrange(
                            i + 1,
                            pre.len() as int,
                        ));
                    }
                    assert forall|g2: u64| g2 != guild_id && old(self).has_game(g2) implies self
                        .has_game(g2) by {
                        let j = choose|j: int|
                            0 <= j < pre.len() && pre[j].guild_id == g2;
                        if j < i {
                            assert(post[j].guild_id == g2);
                        } else {
                            assert(post[j - 1].guild_id == g2);
                        }
                    }
                    assert forall|g: GameServer|
                        g.guild_id != guild_id && old(self).game_row(g) implies self.game_row(
                        g,
                    ) by {
                        let j = choose|j: int| 0 <= j < pre.len() && pre[j] == g;
                        if j < i {
                            assert(post[j] == g);
                        } else {
                            assert(post[j - 1] == g);
                        }
                    }
                    assert forall|k: int|
                        0 <= k < self.players@.len() && (#[trigger] self.players@[k]).guild_id
                            != guild_id implies self.player_anchored(self.players@[k]) by {
                        let q = self.players@[k];
                        assert(q == old(self).players@[k]);
                        assert(old(self).player_anchored(q));
                        let j = choose|j: int|
                            0 <= j < pre.len() && pre[j].guild_id == q.guild_id && q.pos_x
                                < pre[j].width && q.pos_y < pre[j].height;
                        if j < i {
                            assert(post[j].guild_id == q.guild_id && q.pos_x < post[j].width
                                && q.pos_y < post[j].height);
                        } else {
                            assert(j != i);
                            assert(post[j - 1].guild_id == q.guild_id && q.pos_x < post[j
                                - 1].width && q.pos_y < post[j - 1].height);
                        }
                    }
                }
                return 1;
            }
            i += 1;
        }
        0
    }

    /// Deletes every player row of this community; with the community's game
    /// row already gone (or never present), full well-formedness is restored.
    /// Returns the number of rows deleted.
    pub fn delete_players(&mut self, guild_id: u64) -> (n: usize)
        requires
            old(self).wf_except(guild_id),
        ensures
            final(self).wf(),
            final(self).games@ == old(self).games@,
            final(self).players@ == old(self).players@.filter(
                |q: GamePlayer| q.guild_id != guild_id,
            ),
            n == old(self).players@.len() - final(self).players@.len(),
            forall|u2: u64| !final(self).has_player(guild_id, u2),
            forall|p: GamePlayer|
                p.guild_id != guild_id ==> final(self).player_row(p) == old(self).player_row(p),
    {
        let ghost pre = self.players@;
        let ghost pred = |q: GamePlayer| q.guild_id != guild_id;
        let n = self.players.len();
        let mut kept: Vec<GamePlayer> = Vec::new();
        let mut i: usize = 0;
        proof {
            reveal(Seq::filter);
            assert(pre.take(0) =~= Seq::<GamePlayer>::empty());
        }
        while i < n
            invariant
                n == pre.len(),
                i <= n,
                self.players@ == pre,
                self.games@ == old(self).games@,
                kept@ == pre.take(i as int).filter(pred),
                pred == (|q: GamePlayer| q.guild_id != guild_id),
            decreases n - i,
        {
            let p = self.players[i];
            proof {
                reveal(Seq::filter);
                assert(pre.take(i + 1).drop_last() =~= pre.take(i as int));
                assert(pre.take(i + 1).last() == pre[i as int]);
            }
            if p.guild_id != guild_id {
                kept.push(p);
            }
            i += 1;
        }
        proof {
            assert(pre.take(n as int) =~= pre);
        }
        let removed = self.players.len() - kept.len();
        proof {
            broadcast use vstd::seq_lib::group_filter_ensures;

        }
        self.players = kept;
        proof {
            let post = self.players@;
            assert forall|k: int|
                0 <= k < post.len() implies pred(#[trigger] post[k]) by {
                broadcast use vstd::seq_lib::group_filter_ensures;

            }
            assert forall|k: int, l: int|
                0 <= k < l < post.len() implies !(post[k].guild_id == post[l].guild_id
                    && post[k].user_id == post[l].user_id) by {
                lemma_filter_distinct(pre, pred, k, l);
            }
            assert forall|k: int|
                0 <= k < post.len() implies self.player_anchored(#[trigger] post[k]) by {
                lemma_filter_sub(pre, pred, k);
                let m = choose|m: int| 0 <= m < pre.len() && pre[m] == post[k];
                assert(old(self).wf_except(guild_id));
                assert(old(self).players@[m] == post[k]);
                assert(old(self).player_anchored(post[k]));
                let j = choose|j: int|
                    0 <= j < old(self).games@.len() && old(self).games@[j].guild_id
                        == post[k].guild_id && post[k].pos_x < old(self).games@[j].width
                        && post[k].pos_y < old(self).games@[j].height;
                assert(self.games@[j].guild_id == post[k].guild_id);
            }
            assert forall|p: GamePlayer|
                p.guild_id != guild_id && old(self).player_row(p) implies self.player_row(p) by {
                let m = choose|m: int| 0 <= m < pre.len() && pre[m] == p;
                lemma_filter_keeps(pre, pred, m);
            }
            assert forall|p: GamePlayer|
                p.guild_id != guild_id && self.player_row(p) implies old(self).player_row(
                p,
            ) by {
                let k = choose|k: int| 0 <= k < post.len() && post[k] == p;
                lemma_filter_sub(pre, pred, k);
            }
            assert forall|u2: u64| !self.has_player(guild_id, u2) by {
                if self.has_player(guild_id, u2) {
                    let k = choose|k: int|
                        0 <= k < post.len() && post[k].guild_id == guild_id && post[k].user_id
                            == u2;
                    broadcast use vstd::seq_lib::group_filter_ensures;

                    assert(pred(post[k]));
                }
            }
        }
        removed
    }

    /// Moves a player to `(x, y)` and applies `action_delta` to their action
    /// balance (saturating at the bounds of the balance's type), in one
    /// mutation. Fails, changing nothing, if the player does not exist. The
    /// new position must lie on the community's board.
    pub fn update_player_position(
        &mut self,
        guild_id: u64,
        user_id: u64,
        x: u8,
        y: u8,
        action_delta: i8,
    ) -> (r: bool)
        requires
            old(self).wf(),
            forall|i: int|
                0 <= i < old(self).games@.len() && (#[trigger] old(self).games@[i]).guild_id
                    == guild_id ==> x < old(self).games@[i].width && y < old(
                    self,
                ).games@[i].height,
        ensures
            final(self).wf(),
            r == old(self).has_player(guild_id, user_id),
            final(self).games@ == old(self).games@,
            !r ==> final(self).players@ == old(self).players@,
            r ==> exists|j: int|
                0 <= j < old(self).players@.len() && (#[trigger] old(self).players@[j]).guild_id
                    == guild_id && old(self).players@[j].user_id == user_id && final(self).players@
                    == old(self).players@.update(
                    j,
                    moved_row(old(self).players@[j], x, y, action_delta),
                ),
    {
        let n = self.players.len();
        let mut i: usize = 0;
        while i < n
            invariant
                n == self.players@.len(),
                i <= n,
                old(self).wf(),
                self.games@ == old(self).games@,
                self.players@ == old(self).players@,
                forall|g: int|
                    0 <= g < old(self).games@.len() && (#[trigger] old(self).games@[g]).guild_id
                        == guild_id ==> x < old(self).games@[g].width && y < old(
                        self,
                    ).games@[g].height,
                forall|k: int|
                    0 <= k < i ==> !(self.players@[k].guild_id == guild_id
                        && self.players@[k].user_id == user_id),
            decreases n - i,
        {
            let p = self.players[i];
            if p.guild_id == guild_id && p.user_id == user_id {
                let q = GamePlayer {
                    pos_x: x,
                    pos_y: y,
                    actions: sat_add_exec(p.actions, action_delta),
                    ..p
                };
                self.players[i] = q;
                proof {
                    assert(p == old(self).players@[i as int]);
                    assert(old(self).player_anchored(p));
                    let g = choose|g: int|
                        0 <= g < old(self).games@.len() && old(self).games@[g].guild_id
                            == p.guild_id && p.pos_x < old(self).games@[g].width && p.pos_y < old(
                            self,
                        ).games@[g].height;
                    assert(x < old(self).games@[g].width && y < old(self).games@[g].height);
                    assert(old(self).games@[g].guild_id == q.guild_id && q.pos_x < old(
                        self,
                    ).games@[g].width && q.pos_y < old(self).games@[g].height);
                    assert(old(self).player_anchored(q));
                    assert(q == moved_row(old(self).players@[i as int], x, y, action_delta));
                    lemma_update_keeps_wf(*old(self), *self, i as int, q);
                }
                return true;
            }
            i += 1;
        }
        false
    }

    /// Applies `delta` to one player's action balance, saturating at the
    /// bounds of the balance's type. Fails, changing nothing, if the player
    /// does not exist.
    pub fn update_player_actions(&mut self, guild_id: u64, user_id: u64, delta: i8) -> (r: bool)
        requires
            old(self).wf(),
        ensures
            final(self).wf(),
            r == old(self).has_player(guild_id, user_id),
            final(self).games@ == old(self).games@,
            !r ==> final(self).players@ == old(self).players@,
            r ==> exists|j: int|
                0 <= j < old(self).players@.len() && (#[trigger] old(self).players@[j]).guild_id
                    == guild_id && old(self).players@[j].user_id == user_id && final(self).players@
                    == old(self).players@.update(
                    j,
                    supplied_row(old(self).players@[j], delta),
                ),
    {
        let n = self.players.len();
        let mut i: usize = 0;
        while i < n
            invariant
                n == self.players@.len(),
                i <= n,
                old(self).wf(),
                self.games@ == old(self).games@,
                self.players@ == old(self).players@,
                forall|k: int|
                    0 <= k < i ==> !(self.players@[k].guild_id == guild_id
                        && self.players@[k].user_id == user_id),
            decreases n - i,
        {
            let p = self.players[i];
            if p.guild_id == guild_id && p.user_id == user_id {
                let q = GamePlayer { actions: sat_add_exec(p.actions, delta), ..p };
                self.players[i] = q;
                proof {
                    assert(p == old(self).players@[i as int]);
                    assert(old(self).player_anchored(p));
                    let g = choose|g: int|
                        0 <= g < old(self).games@.len() && old(self).games@[g].guild_id
                            == p.guild_id && p.pos_x < old(self).games@[g].width && p.pos_y < old(
                            self,
                        ).games@[g].height;
                    assert(old(self).games@[g].guild_id == q.guild_id && q.pos_x < old(
                        self,
                    ).games@[g].width && q.pos_y < old(self).games@[g].height);
                    assert(old(self).player_anchored(q));
                    assert(q == supplied_row(old(self).players@[i as int], delta));
                    lemma_update_keeps_wf(*old(self), *self, i as int, q);
                }
                return true;
            }
            i += 1;
        }
        false
    }

    /// Applies `delta` to the action balance of every player of this
    /// community, saturating at the bounds of the balance's type, in one bulk
    /// mutation.
    pub fn update_all_actions(&mut self, guild_id: u64, delta: i8)
        requires
            old(self).wf(),
        ensures
            final(self).wf(),
            final(self).games@ == old(self).games@,
            final(self).players@.len() == old(self).players@.len(),
            forall|k: int|
                0 <= k < old(self).players@.len() ==> final(self).players@[k] == (if (
                #[trigger] old(self).players@[k]).guild_id == guild_id {
                    supplied_row(old(self).players@[k], delta)
                } else {
                    old(self).players@[k]
                }),
    {
        let n = self.players.len();
        let mut i: usize = 0;
        while i < n
            invariant
                n == self.players@.len(),
                i <= n,
                old(self).wf(),
                self.games@ == old(self).games@,
                forall|k: int|
                    0 <= k < n ==> #[trigger] self.players@[k] == (if i <= k {
                        old(self).players@[k]
                    } else if old(self).players@[k].guild_id == guild_id {
                        supplied_row(old(self).players@[k], delta)
                    } else {
                        old(self).players@[k]
                    }),
            decreases n - i,
        {
            let p = self.players[i];
            if p.guild_id == guild_id {
                let q = GamePlayer { actions: sat_add_exec(p.actions, delta), ..p };
                self.players[i] = q;
            }
            i += 1;
        }
        proof {
            assert forall|k: int|
                0 <= k < self.players@.len() implies self.player_anchored(
                #[trigger] self.players@[k],
            ) by {
                let q = self.players@[k];
                assert(old(self).player_anchored(old(self).players@[k]));
                let j = choose|j: int|
                    0 <= j < old(self).games@.len() && old(self).games@[j].guild_id == old(
                        self,
                    ).players@[k].guild_id && old(self).players@[k].pos_x < old(
                        self,
                    ).games@[j].width && old(self).players@[k].pos_y < old(self).games@[j].height;
                assert(self.games@[j].guild_id == q.guild_id && q.pos_x < self.games@[j].width
                    && q.pos_y < self.games@[j].height);
            }
        }
    }

    /// A snapshot of this community's player rows, in ascending user order:
    /// it holds exactly this community's rows, each once, sorted strictly by
    /// user — the order the board's display indices and legend follow.
    pub fn players_of(&self, guild_id: u64) -> (r: Vec<GamePlayer>)
        requires
            self.wf(),
        ensures
            forall|a: int, b: int|
                0 <= a < b < r@.len() ==> r@[a].user_id < r@[b].user_id,
            forall|p: GamePlayer|
                r@.contains(p) <==> (self.player_row(p) && p.guild_id == guild_id),
            r@.len() == self.players@.filter(|q: GamePlayer| q.guild_id == guild_id).len(),
    {
        let ghost pred = |q: GamePlayer| q.guild_id == guild_id;
        let n = self.players.len();
        let mut r: Vec<GamePlayer> = Vec::new();
        let mut i: usize = 0;
        proof {
            reveal(Seq::filter);
            assert(self.players@.take(0) =~= Seq::<GamePlayer>::empty());
        }
        while i < n
            invariant
                self.wf(),
                n == self.players@.len(),
                i <= n,
                forall|a: int, b: int|
                    0 <= a < b < r@.len() ==> r@[a].user_id < r@[b].user_id,
                forall|p: GamePlayer|
                    r@.contains(p) <==> exists|m: int|
                        0 <= m < i && self.players@[m] == p && p.guild_id == guild_id,
                r@.len() == self.players@.take(i as int).filter(pred).len(),
                pred == (|q: GamePlayer| q.guild_id == guild_id),
            decreases n - i,
        {
            let p = self.players[i];
            proof {
                reveal(Seq::filter);
                assert(self.players@.take(i + 1).drop_last() =~= self.players@.take(i as int));
                assert(self.players@.take(i + 1).last() == self.players@[i as int]);
            }
            if p.guild_id == guild_id {
                let mut k: usize = 0;
                while k < r.len() && r[k].user_id < p.user_id
                    invariant
                        k <= r@.len(),
                        forall|a: int| 0 <= a < k ==> r@[a].user_id < p.user_id,
                    decreases r@.len() - k,
                {
                    k += 1;
                }
                proof {
                    // No row already collected carries this user: each came
                    // from an earlier store position of the same community,
                    // and player rows are unique per community and user.
                    assert forall|a: int| 0 <= a < r@.len() implies r@[a].user_id
                        != p.user_id by {
                        if r@[a].user_id == p.user_id {
                            assert(r@.contains(r@[a]));
                            let m = choose|m: int|
                                0 <= m < i && self.players@[m] == r@[a] && r@[a].guild_id
                                    == guild_id;
                            assert(!(self.players@[m].guild_id == self.players@[i as int].guild_id
                                && self.players@[m].user_id == self.players@[i as int].user_id));
                        }
                    }
                }
                let ghost before = r@;
                let ghost kk = k as int;
                r.insert(k, p);
                proof {
                    before.insert_ensures(kk, p);
                    assert forall|a: int, b: int|
                        0 <= a < b < r@.len() implies r@[a].user_id < r@[b].user_id by {
                        if b < kk {
                            assert(r@[a] == before[a] && r@[b] == before[b]);
                        } else if a > kk {
                            assert(r@[a] == before[a - 1] && r@[b] == before[b - 1]);
                        } else if a == kk && b > kk {
                            assert(r@[b] == before[b - 1]);
                            assert(before[kk].user_id > p.user_id || kk == before.len());
                            assert(before[b - 1].user_id >= before[kk].user_id);
                        } else if b == kk {
                            assert(r@[a] == before[a]);
                        } else {
                            // a < kk < b
                            assert(r@[a] == before[a] && r@[b] == before[b - 1]);
                            assert(before[kk].user_id > p.user_id || kk == before.len());
                            assert(before[b - 1].user_id >= before[kk].user_id || b - 1 == kk);
                        }
                    }
                    assert forall|q: GamePlayer| r@.contains(q) implies (exists|m: int|
                        0 <= m < i + 1 && self.players@[m] == q && q.guild_id == guild_id) by {
                        let a = choose|a: int| 0 <= a < r@.len() && r@[a] == q;
                        if a < kk {
                            assert(before[a] == q);
                            assert(before.contains(q));
                        } else if a == kk {
                            assert(q == p);
                            assert(self.players@[i as int] == q);
                        } else {
                            assert(before[a - 1] == q);
                            assert(before.contains(q));
                        }
                    }
                    assert forall|q: GamePlayer| (exists|m: int|
                        0 <= m < i + 1 && self.players@[m] == q && q.guild_id
                            == guild_id) implies r@.contains(q) by {
                        let m = choose|m: int|
                            0 <= m < i + 1 && self.players@[m] == q && q.guild_id == guild_id;
                        if m < i {
                            assert(before.contains(q));
                            let a = choose|a: int| 0 <= a < before.len() && before[a] == q;
                            if a < kk {
                                assert(r@[a] == q);
                            } else {
                                assert(r@[a + 1] == q);
                            }
                        } else {
                            assert(q == p);
                            assert(r@[kk] == q);
                        }
                    }
                }
            } else {
                proof {
                    assert forall|q: GamePlayer| r@.contains(q) implies (exists|m: int|
                        0 <= m < i + 1 && self.players@[m] == q && q.guild_id == guild_id) by {
                    }
                    assert forall|q: GamePlayer| (exists|m: int|
                        0 <= m < i + 1 && self.players@[m] == q && q.guild_id
                            == guild_id) implies r@.contains(q) by {
                        let m = choose|m: int|
                            0 <= m < i + 1 && self.players@[m] == q && q.guild_id == guild_id;
                        assert(m < i);
                    }
                }
            }
            i += 1;
        }
        proof {
            assert(self.players@.take(n as int) =~= self.players@);
        }
        r
    }
}

/// A player's action balance after a supply of `d`, saturating at the bounds
/// of the balance's type.
pub open spec fn sat_add(a: u8, d: i8) -> u8 {
    if a + d < 0 {
        0
    } else if a + d > 255 {
        255
    } else {
        (a + d) as u8
    }
}

/// The row `p` after moving to `(x, y)` and applying `d` action points.
pub open spec fn moved_row(p: GamePlayer, x: u8, y: u8, d: i8) -> GamePlayer {
    GamePlayer { pos_x: x, pos_y: y, actions: sat_add(p.actions, d), ..p }
}

/// The row `p` after applying `d` action points.
pub open spec fn supplied_row(p: GamePlayer, d: i8) -> GamePlayer {
    GamePlayer { actions: sat_add(p.actions, d), ..p }
}

/// Saturating application of a signed delta to an unsigned balance.
fn sat_add_exec(a: u8, d: i8) -> (r: u8)
    ensures
        r == sat_add(a, d),
{
    if d >= 0 {
        let dd = d as u8;
        if a > 255 - dd {
            255
        } else {
            a + dd
        }
    } else {
        let neg: i16 = -(d as i16);
        let dd = neg as u8;
        if a < dd {
            0
        } else {
            a - dd
        }
    }
}

/// Replacing one player row by another with the same key, anchored position
/// and in-range fields keeps the store well-formed.
proof fn lemma_update_keeps_wf(pre: Store, post: Store, j: int, q: GamePlayer)
    requires
        pre.wf(),
        0 <= j < pre.players@.len(),
        post.games@ == pre.games@,
        post.players@ == pre.players@.update(j, q),
        q.guild_id == pre.players@[j].guild_id,
        q.user_id == pre.players@[j].user_id,
        pre.player_anchored(q),
    ensures
        post.wf(),
{
    assert forall|k: int|
        0 <= k < post.players@.len() implies post.player_anchored(
        #[trigger] post.players@[k],
    ) by {
        let p = post.players@[k];
        if k != j {
            assert(p == pre.players@[k]);
            assert(pre.player_anchored(p));
        } else {
            assert(p == q);
        }
        let i = choose|i: int|
            0 <= i < pre.games@.len() && pre.games@[i].guild_id == p.guild_id && p.pos_x
                < pre.games@[i].width && p.pos_y < pre.games@[i].height;
        assert(post.games@[i].guild_id == p.guild_id && p.pos_x < post.games@[i].width && p.pos_y
            < post.games@[i].height);
    }
}

/// Every element of a filtered sequence occurs in the original.
proof fn lemma_filter_sub<A>(s: Seq<A>, pred: spec_fn(A) -> bool, k: int)
    requires
        0 <= k < s.filter(pred).len(),
    ensures
        exists|m: int| 0 <= m < s.len() && s[m] == s.filter(pred)[k],
    decreases s.len(),
{
    reveal(Seq::filter);
    if s.len() > 0 {
        let sub = s.drop_last().filter(pred);
        if pred(s.last()) && k == sub.len() {
            assert(s[s.len() - 1] == s.filter(pred)[k]);
        } else {
            lemma_filter_sub(s.drop_last(), pred, k);
            let m = choose|m: int| 0 <= m < s.drop_last().len() && s.drop_last()[m] == s.filter(
                pred,
            )[k];
            assert(s[m] == s.filter(pred)[k]);
        }
    }
}

/// An element kept by the predicate occurs in the filtered sequence.
proof fn lemma_filter_keeps<A>(s: Seq<A>, pred: spec_fn(A) -> bool, m: int)
    requires
        0 <= m < s.len(),
        pred(s[m]),
    ensures
        exists|k: int| 0 <= k < s.filter(pred).len() && s.filter(pred)[k] == s[m],
    decreases s.len(),
{
    reveal(Seq::filter);
    if s.len() > 0 {
        if m == s.len() - 1 {
            assert(s.filter(pred)[s.filter(pred).len() - 1] == s[m]);
        } else {
            lemma_filter_keeps(s.drop_last(), pred, m);
            let k = choose|k: int|
                0 <= k < s.drop_last().filter(pred).len() && s.drop_last().filter(pred)[k]
                    == s.drop_last()[m];
            assert(s.filter(pred)[k] == s[m]);
        }
    }
}

/// Two distinct positions of a filtered sequence come from two distinct
/// positions of the original.
proof fn lemma_filter_distinct<A>(s: Seq<A>, pred: spec_fn(A) -> bool, k: int, l: int)
    requires
        0 <= k < l < s.filter(pred).len(),
    ensures
        exists|m: int, o: int|
            0 <= m < o < s.len() && s[m] == s.filter(pred)[k] && s[o] == s.filter(pred)[l],
    decreases s.len(),
{
    reveal(Seq::filter);
    if s.len() > 0 {
        let sub = s.drop_last().filter(pred);
        if pred(s.last()) && l == sub.len() {
            lemma_filter_sub(s.drop_last(), pred, k);
            let m = choose|m: int| 0 <= m < s.drop_last().len() && s.drop_last()[m] == sub[k];
            assert(s[m] == s.filter(pred)[k]);
            assert(s[s.len() - 1] == s.filter(pred)[l]);
        } else {
            lemma_filter_distinct(s.drop_last(), pred, k, l);
            let (m, o): (int, int) = choose|m: int, o: int|
                0 <= m < o < s.drop_last().len() && s.drop_last()[m] == sub[k] && s.drop_last()[o]
                    == sub[l];
            assert(s[m] == s.filter(pred)[k]);
            assert(s[o] == s.filter(pred)[l]);
        }
    }
}

} // verus!
