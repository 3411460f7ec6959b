//! The board renderer: composes a game and its players into a deterministic
//! list of drawing commands — background, grid lines, layered range
//! overlays, health-colored markers and index/action labels — in integer
//! raster coordinates. Turning the list into pixels and encoding them is the
//! caller's concern; the composition itself is pure and fully specified.

use vstd::prelude::*;
use crate::state::{GamePlayer, GameServer};

verus! {

/// The side of one board cell, in pixels.
pub const TILE: i32 = 25;

/// A solid or translucent color: RGB plus opacity in whole percent.
#[derive(Debug, Clone, Copy, PartialEq, Eq, Structural)]
pub struct Paint {
    pub red: u8,
    pub green: u8,
    pub blue: u8,
    pub opacity_pct: u8,
}

/// One drawing command, in raster coordinates.
#[derive(Debug, Clone, Copy, PartialEq, Eq, Structural)]
pub enum DrawCmd {
    /// A filled axis-aligned rectangle from `(x0, y0)` to `(x1, y1)`.
    Rect { x0: i32, y0: i32, x1: i32, y1: i32, paint: Paint },
    /// A straight line from `(x0, y0)` to `(x1, y1)`.
    Line { x0: i32, y0: i32, x1: i32, y1: i32, paint: Paint },
    /// A filled circle.
    Circle { cx: i32, cy: i32, radius: u32, paint: Paint },
    /// The decimal text of `value`, anchored at `(x, y)`.
    Label { value: u64, x: i32, y: i32 },
}

/// The background color: opaque white.
pub open spec fn bg_paint() -> Paint {
    Paint { red: 255, green: 255, blue: 255, opacity_pct: 100 }
}

/// The grid line color: opaque black.
pub open spec fn line_paint() -> Paint {
    Paint { red: 0, green: 0, blue: 0, opacity_pct: 100 }
}

/// The marker color for a health value: a four-entry palette from drained
/// gray through red and yellow to full green.
pub open spec fn health_paint(health: u8) -> Paint {
    if health == 0 {
        Paint { red: 196, green: 196, blue: 196, opacity_pct: 50 }
    } else if health == 1 {
        Paint { red: 196, green: 0, blue: 0, opacity_pct: 100 }
    } else if health == 2 {
        Paint { red: 196, green: 196, blue: 0, opacity_pct: 100 }
    } else {
        Paint { red: 0, green: 196, blue: 0, opacity_pct: 100 }
    }
}

/// The translucent overlay color for a range tier.
pub open spec fn range_paint(range: u8) -> Paint {
    if range == 1 {
        Paint { red: 196, green: 196, blue: 196, opacity_pct: 25 }
    } else if range == 2 {
        Paint { red: 196, green: 196, blue: 0, opacity_pct: 25 }
    } else {
        Paint { red: 196, green: 0, blue: 0, opacity_pct: 25 }
    }
}

/// The horizontal nudge that centers a one-digit label where a two-digit one
/// would start: three sevenths of the label text size.
pub open spec fn nudge(value: u64) -> int {
    if value < 10 {
        (3 * ((TILE * 2) / 3)) / 7
    } else {
        0
    }
}

/// The background rectangle covering the whole raster of a `width` by
/// `height` board.
pub open spec fn bg_rect(width: int, height: int) -> DrawCmd {
    DrawCmd::Rect {
        x0: 0,
        y0: 0,
        x1: (width * TILE) as i32,
        y1: (height * TILE) as i32,
        paint: bg_paint(),
    }
}

/// The `k`-th vertical grid line.
pub open spec fn vline(k: int, height: int) -> DrawCmd {
    DrawCmd::Line {
        x0: (k * TILE) as i32,
        y0: 0,
        x1: (k * TILE) as i32,
        y1: (height * TILE) as i32,
        paint: line_paint(),
    }
}

/// The `k`-th horizontal grid line.
pub open spec fn hline(k: int, width: int) -> DrawCmd {
    DrawCmd::Line {
        x0: 0,
        y0: (k * TILE) as i32,
        x1: (width * TILE) as i32,
        y1: (k * TILE) as i32,
        paint: line_paint(),
    }
}

/// The first `k` vertical grid lines, left to right.
pub open spec fn vlines(k: int, height: int) -> Seq<DrawCmd>
    decreases k,
{
    if k <= 0 {
        Seq::empty()
    } else {
        vlines(k - 1, height).push(vline(k - 1, height))
    }
}

/// The first `k` horizontal grid lines, top to bottom.
pub open spec fn hlines(k: int, width: int) -> Seq<DrawCmd>
    decreases k,
{
    if k <= 0 {
        Seq::empty()
    } else {
        hlines(k - 1, width).push(hline(k - 1, width))
    }
}

/// The translucent range overlay of one player: a square centered on the
/// player's cell with half-width `range * TILE + TILE/3`, colored by tier.
pub open spec fn range_rect(p: GamePlayer) -> DrawCmd {
    let cx = p.pos_x * TILE + TILE / 2;
    let cy = p.pos_y * TILE + TILE / 2;
    let d = p.range * TILE + TILE / 3;
    DrawCmd::Rect {
        x0: (cx - d) as i32,
        y0: (cy - d) as i32,
        x1: (cx + d) as i32,
        y1: (cy + d) as i32,
        paint: range_paint(p.range),
    }
}

/// The range overlays of one tier, in snapshot order.
pub open spec fn tier_cmds(ps: Seq<GamePlayer>, tier: u8) -> Seq<DrawCmd>
    decreases ps.len(),
{
    if ps.len() == 0 {
        Seq::empty()
    } else {
        tier_cmds(ps.drop_last(), tier) + (if ps.last().range == tier {
            seq![range_rect(ps.last())]
        } else {
            Seq::<DrawCmd>::empty()
        })
    }
}

/// One player's marker: a health-colored circle — omitted for a health value
/// outside the palette, which is a data-integrity condition, not a color —
/// followed by the display-index label and the action-balance label.
pub open spec fn marker_cmds(p: GamePlayer, idx: int) -> Seq<DrawCmd> {
    let circle = DrawCmd::Circle {
        cx: (p.pos_x * TILE + TILE / 2) as i32,
        cy: (p.pos_y * TILE + TILE / 2) as i32,
        radius: (TILE / 3) as u32,
        paint: health_paint(p.health),
    };
    let idx_label = DrawCmd::Label {
        value: idx as u64,
        x: (p.pos_x * TILE + 2 + nudge(idx as u64)) as i32,
        y: (p.pos_y * TILE + 2) as i32,
    };
    let act_label = DrawCmd::Label {
        value: p.actions as u64,
        x: (p.pos_x * TILE + 2 + nudge(p.actions as u64)) as i32,
        y: (p.pos_y * TILE + TILE / 2 + 1) as i32,
    };
    (if p.health <= 3 {
        seq![circle]
    } else {
        Seq::<DrawCmd>::empty()
    }) + seq![idx_label, act_label]
}

/// The markers of all players, in ascending snapshot order: the display
/// index of each player is its position in the snapshot it is rendered from.
pub open spec fn markers(ps: Seq<GamePlayer>) -> Seq<DrawCmd>
    decreases ps.len(),
{
    if ps.len() == 0 {
        Seq::empty()
    } else {
        markers(ps.drop_last()) + marker_cmds(ps.last(), ps.len() - 1)
    }
}

/// The whole display list of a board: background, grid, the range overlays
/// tier by tier from the widest down — so narrower overlays layer on top —
/// then every player's marker.
pub open spec fn render_spec(game: GameServer, ps: Seq<GamePlayer>) -> Seq<DrawCmd> {
    seq![bg_rect(game.width as int, game.height as int)] + vlines(
        game.width + 1,
        game.height as int,
    ) + hlines(game.height + 1, game.width as int) + tier_cmds(ps, 3) + tier_cmds(ps, 2)
        + tier_cmds(ps, 1) + markers(ps)
}

/// The raster size of a board: one pixel more than `TILE` per cell on each
/// axis, so the outermost grid lines have a pixel to land on.
pub fn image_dims(width: u8, height: u8) -> (r: (u32, u32))
    ensures
        r.0 == width * TILE + 1,
        r.1 == height * TILE + 1,
{
    (width as u32 * 25 + 1, height as u32 * 25 + 1)
}

/// Appends the range overlays of one tier, in snapshot order.
fn push_tier(out: &mut Vec<DrawCmd>, ps: &Vec<GamePlayer>, tier: u8)
    ensures
        final(out)@ == old(out)@ + tier_cmds(ps@, tier),
{
    let ghost base = out@;
    let n = ps.len();
    let mut i: usize = 0;
    proof {
        assert(out@ =~= base + tier_cmds(ps@.take(0), tier));
    }
    while i < n
        invariant
            n == ps@.len(),
            i <= n,
            out@ == base + tier_cmds(ps@.take(i as int), tier),
        decreases n - i,
    {
        let p = ps[i];
        proof {
            assert(ps@.take(i + 1).drop_last() =~= ps@.take(i as int));
            assert(ps@.take(i + 1).last() == ps@[i as int]);
        }
        if p.range == tier {
            out.push(DrawCmd::Rect {
                x0: p.pos_x as i32 * TILE - (p.range as i32 * TILE + TILE / 3) + TILE / 2,
                y0: p.pos_y as i32 * TILE - (p.range as i32 * TILE + TILE / 3) + TILE / 2,
                x1: p.pos_x as i32 * TILE + (p.range as i32 * TILE + TILE / 3) + TILE / 2,
                y1: p.pos_y as i32 * TILE + (p.range as i32 * TILE + TILE / 3) + TILE / 2,
                paint: range_paint_exec(p.range),
            });
            proof {
                assert(out@.last() == range_rect(ps@[i as int]));
                assert(out@ =~= base + tier_cmds(ps@.take(i + 1), tier));
            }
        }
        proof {
            assert(out@ =~= base + tier_cmds(ps@.take(i + 1), tier));
        }
        i += 1;
    }
    proof {
        assert(ps@.take(n as int) =~= ps@);
    }
}

/// The translucent overlay color for a range tier.
fn range_paint_exec(range: u8) -> (r: Paint)
    ensures
        r == range_paint(range),
{
    if range == 1 {
        Paint { red: 196, green: 196, blue: 196, opacity_pct: 25 }
    } else if range == 2 {
        Paint { red: 196, green: 196, blue: 0, opacity_pct: 25 }
    } else {
        Paint { red: 196, green: 0, blue: 0, opacity_pct: 25 }
    }
}

/// The marker color for a health value.
fn health_paint_exec(health: u8) -> (r: Paint)
    ensures
        r == health_paint(health),
{
    if health == 0 {
        Paint { red: 196, green: 196, blue: 196, opacity_pct: 50 }
    } else if health == 1 {
        Paint { red: 196, green: 0, blue: 0, opacity_pct: 100 }
    } else if health == 2 {
        Paint { red: 196, green: 196, blue: 0, opacity_pct: 100 }
    } else {
        Paint { red: 0, green: 196, blue: 0, opacity_pct: 100 }
    }
}

/// Composes the whole display list of a board: the deterministic function of
/// the game's dimensions and the player snapshot that every board image is
/// rasterized from.
pub fn render_plan(game: &GameServer, players: &Vec<GamePlayer>) -> (r: Vec<DrawCmd>)
    ensures
        r@ == render_spec(*game, players@),
{
    let mut out: Vec<DrawCmd> = Vec::new();
    let w = game.width as i32;
    let h = game.height as i32;
    out.push(DrawCmd::Rect { x0: 0, y0: 0, x1: w * TILE, y1: h * TILE, paint: Paint {
        red: 255,
        green: 255,
        blue: 255,
        opacity_pct: 100,
    } });
    let ghost part1 = seq![bg_rect(game.width as int, game.height as int)];
    proof {
        assert(out@ =~= part1 + vlines(0, game.height as int));
    }
    let mut k: i32 = 0;
    while k <= w
        invariant
            w == game.width as i32,
            h == game.height as i32,
            0 <= k <= w + 1,
            part1 == seq![bg_rect(game.width as int, game.height as int)],
            out@ == part1 + vlines(k as int, game.height as int),
        decreases w + 1 - k,
    {
        out.push(DrawCmd::Line { x0: k * TILE, y0: 0, x1: k * TILE, y1: h * TILE, paint: Paint {
            red: 0,
            green: 0,
            blue: 0,
            opacity_pct: 100,
        } });
        proof {
            assert(out@.last() == vline(k as int, game.height as int));
            assert(out@ =~= part1 + vlines(k + 1, game.height as int));
        }
        k += 1;
    }
    let ghost part2 = part1 + vlines(game.width + 1, game.height as int);
    proof {
        assert(out@ =~= part2 + hlines(0, game.width as int));
    }
    let mut k: i32 = 0;
    while k <= h
        invariant
            w == game.width as i32,
            h == game.height as i32,
            0 <= k <= h + 1,
            part2 == seq![bg_rect(game.width as int, game.height as int)] + vlines(
                game.width + 1,
                game.height as int,
            ),
            out@ == part2 + hlines(k as int, game.width as int),
        decreases h + 1 - k,
    {
        out.push(DrawCmd::Line { x0: 0, y0: k * TILE, x1: w * TILE, y1: k * TILE, paint: Paint {
            red: 0,
            green: 0,
            blue: 0,
            opacity_pct: 100,
        } });
        proof {
            assert(out@.last() == hline(k as int, game.width as int));
            assert(out@ =~= part2 + hlines(k + 1, game.width as int));
        }
        k += 1;
    }
    push_tier(&mut out, players, 3);
    push_tier(&mut out, players, 2);
    push_tier(&mut out, players, 1);
    let ghost part3 = out@;
    proof {
        assert(out@ =~= part3 + markers(players@.take(0)));
    }
    let n = players.len();
    let mut i: usize = 0;
    while i < n
        invariant
            n == players@.len(),
            i <= n,
            out@ == part3 + markers(players@.take(i as int)),
        decreases n - i,
    {
        let p = players[i];
        proof {
            assert(players@.take(i + 1).drop_last() =~= players@.take(i as int));
            assert(players@.take(i + 1).last() == players@[i as int]);
        }
        let ghost before = out@;
        if p.health <= 3 {
            out.push(DrawCmd::Circle {
                cx: p.pos_x as i32 * TILE + TILE / 2,
                cy: p.pos_y as i32 * TILE + TILE / 2,
                radius: 8,
                paint: health_paint_exec(p.health),
            });
        }
        let idx_value = i as u64;
        let idx_nudge: i32 = if idx_value < 10 {
            6
        } else {
            0
        };
        out.push(DrawCmd::Label {
            value: idx_value,
            x: p.pos_x as i32 * TILE + 2 + idx_nudge,
            y: p.pos_y as i32 * TILE + 2,
        });
        let act_value = p.actions as u64;
        let act_nudge: i32 = if act_value < 10 {
            6
        } else {
            0
        };
        out.push(DrawCmd::Label {
            value: act_value,
            x: p.pos_x as i32 * TILE + 2 + act_nudge,
            y: p.pos_y as i32 * TILE + TILE / 2 + 1,
        });
        proof {
            assert(out@ =~= before + marker_cmds(players@[i as int], i as int));
            assert(out@ =~= part3 + markers(players@.take(i + 1)));
        }
        i += 1;
    }
    proof {
        assert(players@.take(n as int) =~= players@);
        assert(out@ =~= render_spec(*game, players@));
    }
    out
}

} // verus!
