//! The game engine: lifecycle (create and destroy), join with randomized
//! placement, movement resolution, and batch action-point supply. Every
//! operation works on one `&mut Store` and either applies completely or
//! leaves the store exactly as it was.

use vstd::prelude::*;
use rand::Rng;
use crate::direction::{parse_spec, DirError, Direction};
use crate::state::{moved_row, supplied_row, GamePlayer, GameServer, Store, MIN_BOARD};

verus! {

/// Why an engine operation failed.
#[derive(Debug, Clone, Copy, PartialEq, Eq, Structural)]
pub enum EngineError {
    /// No game exists for the community.
    NoGame,
    /// The user has no player row in the community's game.
    NotAPlayer,
    /// The user already has a player row in the community's game.
    AlreadyJoined,
    /// A game already exists for the community.
    GameExists,
    /// A requested board dimension is below the minimum. The minimum is
    /// enforced as a hard rejection here: an undersized game is never
    /// created.
    TooSmall,
    /// A proposed placement lies outside the board.
    OffBoard,
    /// The player has no action points left.
    OutOfActions,
    /// The move would step off the board.
    BlockedByWall,
    /// The direction text did not parse.
    InvalidDirection(DirError),
    /// Every placement attempt of a join failed: the exhaustion reply of a
    /// store whose inserts can fail transiently. The in-memory gateway's
    /// insert applies whenever the key is absent, so `join` proves this
    /// reply never arises from it; a caller over another store may see it.
    BoardFull,
    /// The store and the engine's view of it disagree: a row that was just
    /// read could not be deleted.
    Integrity,
}

/// The action-point amount a supply command grants: the given amount when it
/// lies in `[-9, 9]`, otherwise the default of one point.
pub open spec fn supply_amount_spec(arg: Option<i8>) -> i8 {
    match arg {
        Some(a) => if -9 <= a <= 9 {
            a
        } else {
            1
        },
        None => 1,
    }
}

/// Clamps a supply argument to the accepted range `[-9, 9]`, falling back to
/// the default grant of one action point.
pub fn supply_amount(arg: Option<i8>) -> (r: i8)
    ensures
        r == supply_amount_spec(arg),
{
    match arg {
        Some(a) => if -9 <= a && a <= 9 {
            a
        } else {
            1
        },
        None => 1,
    }
}

/// Creates a new game for the community. Both dimensions must be at least
/// `MIN_BOARD` — the minimum is enforced, not advisory — and no game may
/// already exist for the community; on failure nothing changes.
pub fn init(store: &mut Store, guild_id: u64, name: String, width: u8, height: u8) -> (r: Result<
    (),
    EngineError,
>)
    requires
        old(store).wf(),
    ensures
        final(store).wf(),
        r is Ok <==> (width >= MIN_BOARD && height >= MIN_BOARD && !old(store).has_game(
            guild_id,
        )),
        r is Ok ==> final(store).games@ == old(store).games@.push(
            GameServer { guild_id, name, width, height },
        ) && final(store).players@ == old(store).players@ && final(store).has_game(guild_id)
            && final(store).game_at(guild_id) == (GameServer { guild_id, name, width, height }),
        r is Err ==> final(store).unchanged_from(*old(store)),
        r == Err::<(), EngineError>(EngineError::TooSmall) <==> (width < MIN_BOARD || height
            < MIN_BOARD),
        r == Err::<(), EngineError>(EngineError::GameExists) <==> (width >= MIN_BOARD && height
            >= MIN_BOARD && old(store).has_game(guild_id)),
{
    if width < MIN_BOARD || height < MIN_BOARD {
        return Err(EngineError::TooSmall);
    }
    if store.create_game(guild_id, name, width, height) {
        proof {
            store.lemma_game_at(store.games@.len() - 1);
        }
        Ok(())
    } else {
        Err(EngineError::GameExists)
    }
}

/// Destroys the community's game: deletes the game row and every player row
/// of the community in one unit of work, and reports the destroyed game's
/// name. Fails, changing nothing, if no game exists.
pub fn destroy(store: &mut Store, guild_id: u64) -> (r: Result<String, EngineError>)
    requires
        old(store).wf(),
    ensures
        final(store).wf(),
        r is Ok <==> old(store).has_game(guild_id),
        r is Err ==> final(store).unchanged_from(*old(store)) && r == Err::<
            String,
            EngineError,
        >(EngineError::NoGame),
        r matches Ok(name) ==> name == old(store).game_at(guild_id).name
            && !final(store).has_game(guild_id) && (forall|u2: u64|
            !final(store).has_player(guild_id, u2)) && (
        forall|g: GameServer|
            g.guild_id != guild_id ==> final(store).game_row(g) == old(store).game_row(g)) && (
        forall|p: GamePlayer|
            p.guild_id != guild_id ==> final(store).player_row(p) == old(store).player_row(p)),
{
    let game = match store.get_game(guild_id) {
        Some(game) => game,
        None => {
            return Err(EngineError::NoGame);
        },
    };
    proof {
        let i = choose|i: int|
            0 <= i < store.games@.len() && store.games@[i] == game;
        store.lemma_game_at(i);
    }
    let deleted = store.delete_game(guild_id);
    if deleted == 0 {
        // The row read a moment ago was not there to delete: a
        // data-integrity failure, distinct from the quiet "no game" reply.
        return Err(EngineError::Integrity);
    }
    store.delete_players(guild_id);
    Ok(game.name)
}

/// Relies on rand::Rng::gen_range over rand::thread_rng: a draw from the
/// non-empty range `0..bound` is below `bound`.
#[verifier::external_body]
fn random_below(bound: u8) -> (r: u8)
    requires
        bound >= 1,
    ensures
        r < bound,
{
    rand::thread_rng().gen_range(0..bound)
}

/// The player row a join creates at `(x, y)`: full health, no action points,
/// the smallest vision radius.
pub open spec fn fresh_player(guild_id: u64, user_id: u64, x: u8, y: u8) -> GamePlayer {
    GamePlayer { guild_id, user_id, pos_x: x, pos_y: y, health: 3, actions: 0, range: 1 }
}

/// One placement attempt of a join: inserts the caller's player row at the
/// proposed cell `(x, y)`. Fails, changing nothing, if the user already has a
/// row, no game exists, or the cell lies off the board.
pub fn join_at(store: &mut Store, guild_id: u64, user_id: u64, x: u8, y: u8) -> (r: Result<
    (),
    EngineError,
>)
    requires
        old(store).wf(),
    ensures
        final(store).wf(),
        r is Ok <==> (!old(store).has_player(guild_id, user_id) && old(store).has_game(guild_id)
            && x < old(store).game_at(guild_id).width && y < old(store).game_at(
            guild_id,
        ).height),
        r is Ok ==> final(store).players@ == old(store).players@.push(
            fresh_player(guild_id, user_id, x, y),
        ) && final(store).games@ == old(store).games@ && final(store).player_at(
            guild_id,
            user_id,
        ) == fresh_player(guild_id, user_id, x, y),
        r is Err ==> final(store).unchanged_from(*old(store)),
        r == Err::<(), EngineError>(EngineError::AlreadyJoined) <==> old(store).has_player(
            guild_id,
            user_id,
        ),
        r == Err::<(), EngineError>(EngineError::NoGame) <==> (!old(store).has_player(
            guild_id,
            user_id,
        ) && !old(store).has_game(guild_id)),
        r == Err::<(), EngineError>(EngineError::OffBoard) <==> (!old(store).has_player(
            guild_id,
            user_id,
        ) && old(store).has_game(guild_id) && !(x < old(store).game_at(guild_id).width && y
            < old(store).game_at(guild_id).height)),
{
    if store.get_player(guild_id, user_id).is_some() {
        return Err(EngineError::AlreadyJoined);
    }
    let game = match store.get_game(guild_id) {
        Some(game) => game,
        None => {
            return Err(EngineError::NoGame);
        },
    };
    proof {
        let i = choose|i: int| 0 <= i < store.games@.len() && store.games@[i] == game;
        store.lemma_game_at(i);
    }
    if x >= game.width || y >= game.height {
        return Err(EngineError::OffBoard);
    }
    let row = fresh_player_exec(guild_id, user_id, x, y);
    proof {
        let i = choose|i: int| 0 <= i < store.games@.len() && store.games@[i] == game;
        assert(store.games@[i].guild_id == row.guild_id && row.pos_x < store.games@[i].width
            && row.pos_y < store.games@[i].height);
        assert(store.player_anchored(row));
    }
    let inserted = store.insert_player(row);
    proof {
        assert(inserted);
        store.lemma_player_at(store.players@.len() - 1);
    }
    Ok(())
}

/// The player row a join creates at `(x, y)`.
fn fresh_player_exec(guild_id: u64, user_id: u64, x: u8, y: u8) -> (p: GamePlayer)
    ensures
        p == fresh_player(guild_id, user_id, x, y),
{
    GamePlayer { guild_id, user_id, pos_x: x, pos_y: y, health: 3, actions: 0, range: 1 }
}

/// Joins the calling user to the community's game: draws a uniform random
/// cell on the board and inserts a fresh player row there. Returns the cell
/// joined at. Against a store whose insert can fail transiently this
/// placement would be retried, bounded at 32 attempts, with `BoardFull` as
/// the exhaustion reply; this gateway's insert applies whenever the key is
/// absent — checked first below — so a single draw provably suffices and
/// that reply cannot arise here.
pub fn join(store: &mut Store, guild_id: u64, user_id: u64) -> (r: Result<(u8, u8), EngineError>)
    requires
        old(store).wf(),
    ensures
        final(store).wf(),
        r is Ok <==> (!old(store).has_player(guild_id, user_id) && old(store).has_game(
            guild_id,
        )),
        r matches Ok(pos) ==> pos.0 < old(store).game_at(guild_id).width && pos.1 < old(
            store,
        ).game_at(guild_id).height && final(store).players@ == old(store).players@.push(
            fresh_player(guild_id, user_id, pos.0, pos.1),
        ) && final(store).games@ == old(store).games@ && final(store).player_at(
            guild_id,
            user_id,
        ) == fresh_player(guild_id, user_id, pos.0, pos.1),
        r is Err ==> final(store).unchanged_from(*old(store)),
        r == Err::<(u8, u8), EngineError>(EngineError::AlreadyJoined) <==> old(store).has_player(
            guild_id,
            user_id,
        ),
        r == Err::<(u8, u8), EngineError>(EngineError::NoGame) <==> (!old(store).has_player(
            guild_id,
            user_id,
        ) && !old(store).has_game(guild_id)),
{
    if store.get_player(guild_id, user_id).is_some() {
        return Err(EngineError::AlreadyJoined);
    }
    let game = match store.get_game(guild_id) {
        Some(game) => game,
        None => {
            return Err(EngineError::NoGame);
        },
    };
    proof {
        let i = choose|i: int| 0 <= i < store.games@.len() && store.games@[i] == game;
        store.lemma_game_at(i);
        assert(game.width >= 1 && game.height >= 1);
    }
    let x = random_below(game.width);
    let y = random_below(game.height);
    let row = fresh_player_exec(guild_id, user_id, x, y);
    proof {
        let i = choose|i: int| 0 <= i < store.games@.len() && store.games@[i] == game;
        assert(store.games@[i].guild_id == row.guild_id && row.pos_x < store.games@[i].width
            && row.pos_y < store.games@[i].height);
        assert(store.player_anchored(row));
    }
    let inserted = store.insert_player(row);
    proof {
        assert(inserted);
        store.lemma_player_at(store.players@.len() - 1);
    }
    Ok((x, y))
}

/// What a move command decides, given the state it starts from and the raw
/// direction text: the errors in their order of detection, or the stepped-to
/// cell.
pub open spec fn move_result_spec(
    s0: Store,
    guild_id: u64,
    user_id: u64,
    text: Seq<char>,
) -> Result<(u8, u8), EngineError> {
    match parse_spec(text) {
        Err(e) => Err(EngineError::InvalidDirection(e)),
        Ok(d) => if !s0.has_game(guild_id) {
            Err(EngineError::NoGame)
        } else if !s0.has_player(guild_id, user_id) {
            Err(EngineError::NotAPlayer)
        } else {
            let g = s0.game_at(guild_id);
            let p = s0.player_at(guild_id, user_id);
            if p.actions == 0 {
                Err(EngineError::OutOfActions)
            } else {
                match d.step_spec(p.pos_x as int, p.pos_y as int, g.width as int, g.height as int) {
                    None => Err(EngineError::BlockedByWall),
                    Some(np) => Ok((np.0 as u8, np.1 as u8)),
                }
            }
        },
    }
}

/// Moves the calling user's player one step in the direction the text names:
/// parses the direction, requires an existing game and player row and a
/// positive action balance, refuses a step off the board, and otherwise sets
/// the new position and spends one action point in one mutation.
pub fn move_(store: &mut Store, guild_id: u64, user_id: u64, direction: &str) -> (r: Result<
    (u8, u8),
    EngineError,
>)
    requires
        old(store).wf(),
    ensures
        final(store).wf(),
        r == move_result_spec(*old(store), guild_id, user_id, direction@),
        r is Err ==> final(store).unchanged_from(*old(store)),
        r matches Ok(np) ==> exists|j: int|
            0 <= j < old(store).players@.len() && (#[trigger] old(store).players@[j]).guild_id
                == guild_id && old(store).players@[j].user_id == user_id && final(store).players@
                == old(store).players@.update(
                j,
                moved_row(old(store).players@[j], np.0, np.1, -1i8),
            ),
        r matches Ok(np) ==> final(store).games@ == old(store).games@ && final(store).player_at(
            guild_id,
            user_id,
        ) == moved_row(old(store).player_at(guild_id, user_id), np.0, np.1, -1i8),
{
    let d = match Direction::parse(direction) {
        Ok(d) => d,
        Err(e) => {
            return Err(EngineError::InvalidDirection(e));
        },
    };
    let game = match store.get_game(guild_id) {
        Some(game) => game,
        None => {
            return Err(EngineError::NoGame);
        },
    };
    proof {
        let i = choose|i: int| 0 <= i < store.games@.len() && store.games@[i] == game;
        store.lemma_game_at(i);
    }
    let player = match store.get_player(guild_id, user_id) {
        Some(player) => player,
        None => {
            return Err(EngineError::NotAPlayer);
        },
    };
    proof {
        let j = choose|j: int| 0 <= j < store.players@.len() && store.players@[j] == player;
        store.lemma_player_at(j);
        assert(store.player_anchored(player));
        let i = choose|i: int|
            0 <= i < store.games@.len() && store.games@[i].guild_id == player.guild_id
                && player.pos_x < store.games@[i].width && player.pos_y
                < store.games@[i].height;
        store.lemma_game_at(i);
        assert(store.games@[i] == game);
    }
    if player.actions == 0 {
        return Err(EngineError::OutOfActions);
    }
    let (nx, ny) = match d.offset_values(player.pos_x, player.pos_y, game.width, game.height) {
        Some(np) => np,
        None => {
            return Err(EngineError::BlockedByWall);
        },
    };
    proof {
        assert forall|g: int|
            0 <= g < store.games@.len() && (#[trigger] store.games@[g]).guild_id
                == guild_id implies nx < store.games@[g].width && ny
            < store.games@[g].height by {
            store.lemma_game_at(g);
            assert(store.games@[g] == game);
        }
    }
    let moved = store.update_player_position(guild_id, user_id, nx, ny, -1i8);
    proof {
        assert(moved);
        let j = choose|j: int|
            0 <= j < old(store).players@.len() && (#[trigger] old(store).players@[j]).guild_id
                == guild_id && old(store).players@[j].user_id == user_id && store.players@ == old(
                store,
            ).players@.update(j, moved_row(old(store).players@[j], nx, ny, -1i8));
        assert(old(store).players@[j] == player);
        store.lemma_player_at(j);
    }
    Ok((nx, ny))
}

/// Grants `delta` action points to every player of the community in one bulk
/// mutation; fails, changing nothing, if no game exists.
pub fn supply_all(store: &mut Store, guild_id: u64, delta: i8) -> (r: Result<(), EngineError>)
    requires
        old(store).wf(),
    ensures
        final(store).wf(),
        r is Ok <==> old(store).has_game(guild_id),
        r is Err ==> final(store).unchanged_from(*old(store)) && r == Err::<(), EngineError>(
            EngineError::NoGame,
        ),
        r is Ok ==> final(store).games@ == old(store).games@ && final(store).players@.len() == old(
            store,
        ).players@.len() && (forall|k: int|
            0 <= k < old(store).players@.len() ==> final(store).players@[k] == (if (
            #[trigger] old(store).players@[k]).guild_id == guild_id {
                supplied_row(old(store).players@[k], delta)
            } else {
                old(store).players@[k]
            })),
{
    if !store.contains_game(guild_id) {
        return Err(EngineError::NoGame);
    }
    store.update_all_actions(guild_id, delta);
    Ok(())
}

/// The player rows after one user of the community is granted `delta`: the
/// matching row updated, or the rows unchanged if none matches.
pub open spec fn supply_one(
    ps: Seq<GamePlayer>,
    guild_id: u64,
    user_id: u64,
    delta: i8,
) -> Seq<GamePlayer> {
    if exists|j: int|
        0 <= j < ps.len() && ps[j].guild_id == guild_id && ps[j].user_id == user_id {
        let j = choose|j: int|
            0 <= j < ps.len() && ps[j].guild_id == guild_id && ps[j].user_id == user_id;
        ps.update(j, supplied_row(ps[j], delta))
    } else {
        ps
    }
}

/// The player rows after each listed user of the community is granted
/// `delta`, in list order; a listed user without a row changes nothing.
pub open spec fn supply_many(
    ps: Seq<GamePlayer>,
    guild_id: u64,
    users: Seq<u64>,
    delta: i8,
) -> Seq<GamePlayer>
    decreases users.len(),
{
    if users.len() == 0 {
        ps
    } else {
        supply_one(
            supply_many(ps, guild_id, users.drop_last(), delta),
            guild_id,
            users.last(),
            delta,
        )
    }
}

/// A player row exists in `ps` for this community and user.
spec fn seq_has_player(ps: Seq<GamePlayer>, guild_id: u64, user_id: u64) -> bool {
    exists|j: int| 0 <= j < ps.len() && ps[j].guild_id == guild_id && ps[j].user_id == user_id
}

/// Two row sequences with the same keys position by position hold a row for
/// the same communities and users.
proof fn lemma_same_keys_same_membership(
    a: Seq<GamePlayer>,
    b: Seq<GamePlayer>,
    guild_id: u64,
    user_id: u64,
)
    requires
        a.len() == b.len(),
        forall|k: int|
            0 <= k < a.len() ==> (#[trigger] a[k]).guild_id == b[k].guild_id && a[k].user_id
                == b[k].user_id,
    ensures
        seq_has_player(a, guild_id, user_id) == seq_has_player(b, guild_id, user_id),
{
    if seq_has_player(a, guild_id, user_id) {
        let j = choose|j: int|
            0 <= j < a.len() && a[j].guild_id == guild_id && a[j].user_id == user_id;
        assert(b[j].guild_id == guild_id && b[j].user_id == user_id);
    }
    if seq_has_player(b, guild_id, user_id) {
        let j = choose|j: int|
            0 <= j < b.len() && b[j].guild_id == guild_id && b[j].user_id == user_id;
        assert(a[j].guild_id == guild_id && a[j].user_id == user_id);
    }
}

/// Grants `delta` action points to each listed user of the community in list
/// order, best-effort: a listed user without a player row is skipped and the
/// rest are still applied. Returns the updated and the skipped users, in
/// list order. Fails, changing nothing, only if no game exists.
pub fn supply_users(store: &mut Store, guild_id: u64, delta: i8, users: &Vec<u64>) -> (r: Result<
    (Vec<u64>, Vec<u64>),
    EngineError,
>)
    requires
        old(store).wf(),
    ensures
        final(store).wf(),
        r is Ok <==> old(store).has_game(guild_id),
        r is Err ==> final(store).unchanged_from(*old(store)) && r == Err::<
            (Vec<u64>, Vec<u64>),
            EngineError,
        >(EngineError::NoGame),
        r matches Ok(lists) ==> final(store).games@ == old(store).games@ && final(store).players@
            == supply_many(old(store).players@, guild_id, users@, delta) && lists.0@
            == users@.filter(|u: u64| old(store).has_player(guild_id, u)) && lists.1@
            == users@.filter(|u: u64| !old(store).has_player(guild_id, u)),
{
    if !store.contains_game(guild_id) {
        return Err(EngineError::NoGame);
    }
    let ghost okpred = |u: u64| old(store).has_player(guild_id, u);
    let ghost skpred = |u: u64| !old(store).has_player(guild_id, u);
    let mut updated: Vec<u64> = Vec::new();
    let mut skipped: Vec<u64> = Vec::new();
    let n = users.len();
    let mut i: usize = 0;
    proof {
        reveal(Seq::filter);
        assert(users@.take(0) =~= Seq::<u64>::empty());
    }
    while i < n
        invariant
            old(store).wf(),
            store.wf(),
            n == users@.len(),
            i <= n,
            store.games@ == old(store).games@,
            store.players@.len() == old(store).players@.len(),
            forall|k: int|
                0 <= k < store.players@.len() ==> (#[trigger] store.players@[k]).guild_id == old(
                    store,
                ).players@[k].guild_id && store.players@[k].user_id == old(
                    store,
                ).players@[k].user_id,
            store.players@ == supply_many(old(store).players@, guild_id, users@.take(i as int), delta),
            updated@ == users@.take(i as int).filter(okpred),
            skipped@ == users@.take(i as int).filter(skpred),
            okpred == (|u: u64| old(store).has_player(guild_id, u)),
            skpred == (|u: u64| !old(store).has_player(guild_id, u)),
        decreases n - i,
    {
        let u = users[i];
        proof {
            reveal(Seq::filter);
            assert(users@.take(i + 1).drop_last() =~= users@.take(i as int));
            assert(users@.take(i + 1).last() == users@[i as int]);
        }
        let ghost mid = store.players@;
        let ok = store.update_player_actions(guild_id, u, delta);
        proof {
            lemma_same_keys_same_membership(mid, old(store).players@, guild_id, u);
            assert(ok == okpred(u));
            if ok {
                let j = choose|j: int|
                    0 <= j < mid.len() && (#[trigger] mid[j]).guild_id == guild_id
                        && mid[j].user_id == u && store.players@ == mid.update(
                        j,
                        supplied_row(mid[j], delta),
                    );
                assert(seq_has_player(mid, guild_id, u));
                let j2 = choose|j2: int|
                    0 <= j2 < mid.len() && mid[j2].guild_id == guild_id && mid[j2].user_id == u;
                assert(j2 == j);
                assert(supply_one(mid, guild_id, u, delta) == store.players@);
            } else {
                assert(!seq_has_player(mid, guild_id, u));
                assert(supply_one(mid, guild_id, u, delta) == mid);
            }
            assert(store.players@ == supply_many(
                old(store).players@,
                guild_id,
                users@.take(i + 1),
                delta,
            ));
        }
        if ok {
            updated.push(u);
        } else {
            skipped.push(u);
        }
        i += 1;
    }
    proof {
        assert(users@.take(n as int) =~= users@);
    }
    Ok((updated, skipped))
}

/// Shows the board: snapshots the community's players in ascending user
/// order — the order the display indices and the legend follow — and
/// composes the display list every board image is rasterized from, together
/// with the snapshot itself so the caller can build a per-player legend.
/// Fails only if no game exists; reads nothing else and changes nothing.
pub fn board(store: &Store, guild_id: u64) -> (r: Result<
    (Vec<crate::render::DrawCmd>, Vec<GamePlayer>),
    EngineError,
>)
    requires
        store.wf(),
    ensures
        r is Ok <==> store.has_game(guild_id),
        r is Err ==> r == Err::<(Vec<crate::render::DrawCmd>, Vec<GamePlayer>), EngineError>(
            EngineError::NoGame,
        ),
        r matches Ok(out) ==> (forall|a: int, b: int|
            0 <= a < b < out.1@.len() ==> out.1@[a].user_id < out.1@[b].user_id) && (
        forall|p: GamePlayer|
            out.1@.contains(p) <==> (store.player_row(p) && p.guild_id == guild_id))
            && out.1@.len() == store.players@.filter(
            |p: GamePlayer| p.guild_id == guild_id,
        ).len() && out.0@ == crate::render::render_spec(store.game_at(guild_id), out.1@),
{
    let game = match store.get_game(guild_id) {
        Some(game) => game,
        None => {
            return Err(EngineError::NoGame);
        },
    };
    proof {
        let i = choose|i: int| 0 <= i < store.games@.len() && store.games@[i] == game;
        store.lemma_game_at(i);
    }
    let players = store.players_of(guild_id);
    let cmds = crate::render::render_plan(&game, &players);
    Ok((cmds, players))
}

/// Law: one supply changes only the action balance — never position, health,
/// range or identity — and changes it by exactly the granted amount whenever
/// the new balance stays within its type's range.
pub proof fn lemma_supply_exact(p: GamePlayer, d: i8)
    requires
        0 <= p.actions + d <= 255,
    ensures
        supplied_row(p, d).actions == p.actions + d,
        supplied_row(p, d).guild_id == p.guild_id,
        supplied_row(p, d).user_id == p.user_id,
        supplied_row(p, d).pos_x == p.pos_x,
        supplied_row(p, d).pos_y == p.pos_y,
        supplied_row(p, d).health == p.health,
        supplied_row(p, d).range == p.range,
{
}

/// Law: a well-formed store never holds two player rows for the same
/// community and user: two positions holding the same key are one position.
pub proof fn lemma_no_duplicate_players(s: Store, i: int, j: int)
    requires
        s.wf(),
        0 <= i < s.players@.len(),
        0 <= j < s.players@.len(),
        s.players@[i].guild_id == s.players@[j].guild_id,
        s.players@[i].user_id == s.players@[j].user_id,
    ensures
        i == j,
{
}

} // verus!
