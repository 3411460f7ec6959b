//! The direction resolver: the eight compass directions, a tolerant textual
//! parser for them, their unit offsets on the grid, and bounds-checked
//! single-step movement.

use vstd::prelude::*;
use vstd::string::StrSliceExecFns;

verus! {

/// One of the eight directions a player can move in. Screen convention:
/// south is `+y`, east is `+x`.
#[derive(Debug, Clone, Copy, PartialEq, Eq, Structural)]
pub enum Direction {
    North,
    NorthEast,
    East,
    SouthEast,
    South,
    SouthWest,
    West,
    NorthWest,
}

/// Why a direction string was rejected.
#[derive(Debug, Clone, Copy, PartialEq, Eq, Structural)]
pub enum DirError {
    /// The text (or one side of a hyphenated pair) matches no known token.
    /// A side that itself contains a hyphen is rejected the same way.
    Invalid,
    /// A hyphenated pair where a side resolves to a diagonal.
    NonAxial,
    /// A hyphenated pair of two cardinal directions that do not combine to a
    /// diagonal: the same direction twice, or two opposite directions.
    BadPair,
}

impl DirError {
    /// A human-readable description of the rejection.
    pub fn describe(self) -> (m: &'static str)
        ensures
            self is Invalid ==> m@ == "not a direction"@,
            self is NonAxial ==> m@ == "only two cardinal directions can combine"@,
            self is BadPair ==> m@ == "these two directions do not combine"@,
    {
        match self {
            DirError::Invalid => "not a direction",
            DirError::NonAxial => "only two cardinal directions can combine",
            DirError::BadPair => "these two directions do not combine",
        }
    }
}

/// The whitespace characters stripped from the ends of a direction string:
/// the Unicode White_Space set, the same set `str::trim` strips.
pub open spec fn is_space(c: char) -> bool {
    c == ' ' || ('\u{9}' <= c && c <= '\u{d}') || c == '\u{85}' || c == '\u{a0}' || c
        == '\u{1680}' || ('\u{2000}' <= c && c <= '\u{200a}') || c == '\u{2028}' || c
        == '\u{2029}' || c == '\u{202f}' || c == '\u{205f}' || c == '\u{3000}'
}

/// ASCII lowercasing of one character; all direction tokens are ASCII.
pub open spec fn lower_char(c: char) -> char {
    if 'A' <= c && c <= 'Z' {
        ((c as u32) + 32) as char
    } else {
        c
    }
}

/// The sequence with leading whitespace removed.
pub open spec fn trim_start(u: Seq<char>) -> Seq<char>
    decreases u.len(),
{
    if u.len() > 0 && is_space(u[0]) {
        trim_start(u.drop_first())
    } else {
        u
    }
}

/// The sequence with trailing whitespace removed.
pub open spec fn trim_end(u: Seq<char>) -> Seq<char>
    decreases u.len(),
{
    if u.len() > 0 && is_space(u.last()) {
        trim_end(u.drop_last())
    } else {
        u
    }
}

/// Trimmed of whitespace on both ends and lowercased: the normal form every
/// token is matched in.
pub open spec fn norm(u: Seq<char>) -> Seq<char> {
    trim_end(trim_start(u)).map_values(|c: char| lower_char(c))
}

/// Index of the first `'-'` at or after `i`, or `t.len()` if there is none.
pub open spec fn find_dash(t: Seq<char>, i: int) -> int
    decreases t.len() - i when 0 <= i <= t.len()
{
    if i >= t.len() {
        t.len() as int
    } else if t[i] == '-' {
        i
    } else {
        find_dash(t, i + 1)
    }
}

/// The direction a single normalized token resolves to, if any: numpad
/// digits, single letters, two-letter combinations, and full words.
pub open spec fn token_dir(t: Seq<char>) -> Option<Direction> {
    if t.len() == 1 {
        if t[0] == 'n' || t[0] == '8' || t[0] == 'u' {
            Some(Direction::North)
        } else if t[0] == 'e' || t[0] == '6' || t[0] == 'r' {
            Some(Direction::East)
        } else if t[0] == 's' || t[0] == '2' || t[0] == 'd' {
            Some(Direction::South)
        } else if t[0] == 'w' || t[0] == '4' || t[0] == 'l' {
            Some(Direction::West)
        } else if t[0] == '9' {
            Some(Direction::NorthEast)
        } else if t[0] == '3' {
            Some(Direction::SouthEast)
        } else if t[0] == '7' {
            Some(Direction::NorthWest)
        } else if t[0] == '1' {
            Some(Direction::SouthWest)
        } else {
            None
        }
    } else if t.len() == 2 {
        if t[0] == 'n' && t[1] == 'e' {
            Some(Direction::NorthEast)
        } else if t[0] == 's' && t[1] == 'e' {
            Some(Direction::SouthEast)
        } else if t[0] == 'n' && t[1] == 'w' {
            Some(Direction::NorthWest)
        } else if t[0] == 's' && t[1] == 'w' {
            Some(Direction::SouthWest)
        } else if t[0] == 'u' && t[1] == 'r' {
            Some(Direction::NorthEast)
        } else if t[0] == 'd' && t[1] == 'r' {
            Some(Direction::SouthEast)
        } else if t[0] == 'u' && t[1] == 'l' {
            Some(Direction::NorthWest)
        } else if t[0] == 'd' && t[1] == 'l' {
            Some(Direction::SouthWest)
        } else if t[0] == 'u' && t[1] == 'p' {
            Some(Direction::North)
        } else {
            None
        }
    } else if t.len() == 4 {
        if t[0] == 'e' && t[1] == 'a' && t[2] == 's' && t[3] == 't' {
            Some(Direction::East)
        } else if t[0] == 'w' && t[1] == 'e' && t[2] == 's' && t[3] == 't' {
            Some(Direction::West)
        } else if t[0] == 'd' && t[1] == 'o' && t[2] == 'w' && t[3] == 'n' {
            Some(Direction::South)
        } else if t[0] == 'l' && t[1] == 'e' && t[2] == 'f' && t[3] == 't' {
            Some(Direction::West)
        } else {
            None
        }
    } else if t.len() == 5 {
        if t[0] == 'n' && t[1] == 'o' && t[2] == 'r' && t[3] == 't' && t[4] == 'h' {
            Some(Direction::North)
        } else if t[0] == 's' && t[1] == 'o' && t[2] == 'u' && t[3] == 't' && t[4] == 'h' {
            Some(Direction::South)
        } else if t[0] == 'r' && t[1] == 'i' && t[2] == 'g' && t[3] == 'h' && t[4] == 't' {
            Some(Direction::East)
        } else {
            None
        }
    } else {
        None
    }
}

/// How two cardinal directions combine into a diagonal; a repeated or
/// opposite pair does not combine.
pub open spec fn combine_axial(a: Direction, b: Direction) -> Result<Direction, DirError> {
    if (a == Direction::North && b == Direction::East) || (a == Direction::East && b
        == Direction::North) {
        Ok(Direction::NorthEast)
    } else if (a == Direction::South && b == Direction::East) || (a == Direction::East && b
        == Direction::South) {
        Ok(Direction::SouthEast)
    } else if (a == Direction::North && b == Direction::West) || (a == Direction::West && b
        == Direction::North) {
        Ok(Direction::NorthWest)
    } else if (a == Direction::South && b == Direction::West) || (a == Direction::West && b
        == Direction::South) {
        Ok(Direction::SouthWest)
    } else {
        Err(DirError::BadPair)
    }
}

/// The result of a hyphenated direction pair whose sides, already normalized,
/// are `l` and `r`: both must be single tokens naming cardinal directions,
/// and the two must combine to a diagonal.
pub open spec fn pair_spec(l: Seq<char>, r: Seq<char>) -> Result<Direction, DirError> {
    if find_dash(r, 0) != r.len() {
        Err(DirError::Invalid)
    } else {
        match (token_dir(l), token_dir(r)) {
            (Some(a), Some(b)) => if a.axial() && b.axial() {
                combine_axial(a, b)
            } else {
                Err(DirError::NonAxial)
            },
            _ => Err(DirError::Invalid),
        }
    }
}

/// What `Direction::parse` returns on the character sequence `s`: the text is
/// trimmed and lowercased; if it contains a hyphen it is split at the first
/// one and resolved as a pair of cardinal directions, otherwise it is matched
/// as a single token.
pub open spec fn parse_spec(s: Seq<char>) -> Result<Direction, DirError> {
    let t = norm(s);
    let d = find_dash(t, 0);
    if d == t.len() {
        match token_dir(t) {
            Some(dir) => Ok(dir),
            None => Err(DirError::Invalid),
        }
    } else {
        pair_spec(norm(t.subrange(0, d)), norm(t.subrange(d + 1, t.len() as int)))
    }
}

/// Whether `c` is one of the whitespace characters the parser strips.
fn space(c: char) -> (r: bool)
    ensures
        r == is_space(c),
{
    c == ' ' || ('\u{9}' <= c && c <= '\u{d}') || c == '\u{85}' || c == '\u{a0}' || c
        == '\u{1680}' || ('\u{2000}' <= c && c <= '\u{200a}') || c == '\u{2028}' || c
        == '\u{2029}' || c == '\u{202f}' || c == '\u{205f}' || c == '\u{3000}'
}

/// ASCII lowercasing of one character.
fn to_lower(c: char) -> (r: char)
    ensures
        r == lower_char(c),
{
    if 'A' <= c && c <= 'Z' {
        let b: u8 = (c as u8) + 32;
        b as char
    } else {
        c
    }
}

/// The characters of `s`, in order.
fn chars_of(s: &str) -> (r: Vec<char>)
    ensures
        r@ == s@,
{
    let n = s.unicode_len();
    let mut r: Vec<char> = Vec::new();
    let mut i: usize = 0;
    while i < n
        invariant
            n == s@.len(),
            i <= n,
            r@ == s@.subrange(0, i as int),
        decreases n - i,
    {
        r.push(s.get_char(i));
        proof {
            assert(r@ =~= s@.subrange(0, i + 1));
        }
        i += 1;
    }
    proof {
        assert(r@ =~= s@);
    }
    r
}

/// The normal form of `v[from..to]`: whitespace trimmed from both ends,
/// every character lowercased.
fn normalize(v: &Vec<char>, from: usize, to: usize) -> (r: Vec<char>)
    requires
        from <= to <= v@.len(),
    ensures
        r@ == norm(v@.subrange(from as int, to as int)),
{
    let ghost u = v@.subrange(from as int, to as int);
    proof {
        assert(u.subrange(0, u.len() as int) =~= u);
    }
    let mut a: usize = from;
    while a < to && space(v[a])
        invariant
            from <= a <= to <= v@.len(),
            u == v@.subrange(from as int, to as int),
            trim_start(u) == trim_start(u.subrange(a - from, u.len() as int)),
        decreases to - a,
    {
        proof {
            assert(u.subrange(a - from, u.len() as int).drop_first() =~= u.subrange(
                a + 1 - from,
                u.len() as int,
            ));
        }
        a += 1;
    }
    proof {
        assert(u.subrange(a - from, u.len() as int) =~= v@.subrange(a as int, to as int));
        assert(trim_start(u) == v@.subrange(a as int, to as int));
    }
    let ghost w = v@.subrange(a as int, to as int);
    proof {
        assert(w.subrange(0, w.len() as int) =~= w);
    }
    let mut b: usize = to;
    while b > a && space(v[b - 1])
        invariant
            from <= a <= b <= to <= v@.len(),
            w == v@.subrange(a as int, to as int),
            trim_end(w) == trim_end(w.subrange(0, b - a)),
        decreases b,
    {
        proof {
            assert(w.subrange(0, b - a).drop_last() =~= w.subrange(0, b - 1 - a));
        }
        b -= 1;
    }
    proof {
        assert(trim_end(w) == w.subrange(0, b - a));
    }
    let mut r: Vec<char> = Vec::new();
    let mut i: usize = a;
    while i < b
        invariant
            a <= i <= b <= v@.len(),
            r@.len() == i - a,
            forall|k: int| 0 <= k < i - a ==> r@[k] == lower_char(v@[a + k]),
        decreases b - i,
    {
        r.push(to_lower(v[i]));
        i += 1;
    }
    proof {
        assert(forall|k: int|
            0 <= k < b - a ==> #[trigger] w.subrange(0, b - a)[k] == v@[a + k]);
        assert(r@ =~= norm(u));
    }
    r
}

/// Index of the first `'-'` in `t`, or `t.len()` if there is none.
fn find_dash_at(t: &Vec<char>) -> (r: usize)
    ensures
        r as int == find_dash(t@, 0),
        r <= t@.len(),
{
    let mut i: usize = 0;
    while i < t.len()
        invariant
            i <= t@.len(),
            find_dash(t@, 0) == find_dash(t@, i as int),
        decreases t@.len() - i,
    {
        if t[i] == '-' {
            return i;
        }
        i += 1;
    }
    t.len()
}

/// The direction a single normalized token resolves to, if any.
fn token_dir_at(t: &Vec<char>) -> (r: Option<Direction>)
    ensures
        r == token_dir(t@),
{
    if t.len() == 1 {
        let c = t[0];
        if c == 'n' || c == '8' || c == 'u' {
            Some(Direction::North)
        } else if c == 'e' || c == '6' || c == 'r' {
            Some(Direction::East)
        } else if c == 's' || c == '2' || c == 'd' {
            Some(Direction::South)
        } else if c == 'w' || c == '4' || c == 'l' {
            Some(Direction::West)
        } else if c == '9' {
            Some(Direction::NorthEast)
        } else if c == '3' {
            Some(Direction::SouthEast)
        } else if c == '7' {
            Some(Direction::NorthWest)
        } else if c == '1' {
            Some(Direction::SouthWest)
        } else {
            None
        }
    } else if t.len() == 2 {
        let c0 = t[0];
        let c1 = t[1];
        if c0 == 'n' && c1 == 'e' {
            Some(Direction::NorthEast)
        } else if c0 == 's' && c1 == 'e' {
            Some(Direction::SouthEast)
        } else if c0 == 'n' && c1 == 'w' {
            Some(Direction::NorthWest)
        } else if c0 == 's' && c1 == 'w' {
            Some(Direction::SouthWest)
        } else if c0 == 'u' && c1 == 'r' {
            Some(Direction::NorthEast)
        } else if c0 == 'd' && c1 == 'r' {
            Some(Direction::SouthEast)
        } else if c0 == 'u' && c1 == 'l' {
            Some(Direction::NorthWest)
        } else if c0 == 'd' && c1 == 'l' {
            Some(Direction::SouthWest)
        } else if c0 == 'u' && c1 == 'p' {
            Some(Direction::North)
        } else {
            None
        }
    } else if t.len() == 4 {
        let c0 = t[0];
        let c1 = t[1];
        let c2 = t[2];
        let c3 = t[3];
        if c0 == 'e' && c1 == 'a' && c2 == 's' && c3 == 't' {
            Some(Direction::East)
        } else if c0 == 'w' && c1 == 'e' && c2 == 's' && c3 == 't' {
            Some(Direction::West)
        } else if c0 == 'd' && c1 == 'o' && c2 == 'w' && c3 == 'n' {
            Some(Direction::South)
        } else if c0 == 'l' && c1 == 'e' && c2 == 'f' && c3 == 't' {
            Some(Direction::West)
        } else {
            None
        }
    } else if t.len() == 5 {
        let c0 = t[0];
        let c1 = t[1];
        let c2 = t[2];
        let c3 = t[3];
        let c4 = t[4];
        if c0 == 'n' && c1 == 'o' && c2 == 'r' && c3 == 't' && c4 == 'h' {
            Some(Direction::North)
        } else if c0 == 's' && c1 == 'o' && c2 == 'u' && c3 == 't' && c4 == 'h' {
            Some(Direction::South)
        } else if c0 == 'r' && c1 == 'i' && c2 == 'g' && c3 == 'h' && c4 == 't' {
            Some(Direction::East)
        } else {
            None
        }
    } else {
        None
    }
}

/// How two cardinal directions combine into a diagonal.
fn combine(a: Direction, b: Direction) -> (r: Result<Direction, DirError>)
    ensures
        r == combine_axial(a, b),
{
    match (a, b) {
        (Direction::North, Direction::East) | (Direction::East, Direction::North) => Ok(
            Direction::NorthEast,
        ),
        (Direction::South, Direction::East) | (Direction::East, Direction::South) => Ok(
            Direction::SouthEast,
        ),
        (Direction::North, Direction::West) | (Direction::West, Direction::North) => Ok(
            Direction::NorthWest,
        ),
        (Direction::South, Direction::West) | (Direction::West, Direction::South) => Ok(
            Direction::SouthWest,
        ),
        _ => Err(DirError::BadPair),
    }
}

impl Direction {
    /// Parses a direction string, case-insensitively and ignoring surrounding
    /// whitespace. Accepted tokens: numpad digits (8, 2, 4, 6 and the
    /// diagonals 7, 9, 1, 3), single letters (n/e/s/w, u/d/l/r), two-letter
    /// combinations (ne/se/nw/sw, ur/dr/ul/dl, up), full words (north, east,
    /// south, west, up, down, left, right), and a hyphenated pair of two
    /// cardinal tokens (such as "north-east" or "up-left"), order-independent.
    pub fn parse(s: &str) -> (r: Result<Direction, DirError>)
        ensures
            r == parse_spec(s@),
    {
        let cs = chars_of(s);
        proof {
            assert(cs@.subrange(0, cs@.len() as int) =~= s@);
        }
        let t = normalize(&cs, 0, cs.len());
        let d = find_dash_at(&t);
        if d == t.len() {
            match token_dir_at(&t) {
                Some(dir) => Ok(dir),
                None => Err(DirError::Invalid),
            }
        } else {
            let l = normalize(&t, 0, d);
            let rg = normalize(&t, d + 1, t.len());
            let rd = find_dash_at(&rg);
            if rd != rg.len() {
                Err(DirError::Invalid)
            } else {
                match (token_dir_at(&l), token_dir_at(&rg)) {
                    (Some(a), Some(b)) => if a.is_axial() && b.is_axial() {
                        combine(a, b)
                    } else {
                        Err(DirError::NonAxial)
                    },
                    _ => Err(DirError::Invalid),
                }
            }
        }
    }

    /// Spec-level canonical token of this direction: the short compass name.
    pub open spec fn canonical_spec(self) -> Seq<char> {
        match self {
            Direction::North => seq!['n'],
            Direction::East => seq!['e'],
            Direction::South => seq!['s'],
            Direction::West => seq!['w'],
            Direction::NorthEast => seq!['n', 'e'],
            Direction::SouthEast => seq!['s', 'e'],
            Direction::NorthWest => seq!['n', 'w'],
            Direction::SouthWest => seq!['s', 'w'],
        }
    }

    /// The canonical token of this direction, parseable back to it.
    pub fn canonical_name(self) -> (r: &'static str)
        ensures
            r@ == self.canonical_spec(),
    {
        match self {
            Direction::North => {
                proof {
                    reveal_strlit("n");
                    assert("n"@ =~= seq!['n']);
                }
                "n"
            },
            Direction::East => {
                proof {
                    reveal_strlit("e");
                    assert("e"@ =~= seq!['e']);
                }
                "e"
            },
            Direction::South => {
                proof {
                    reveal_strlit("s");
                    assert("s"@ =~= seq!['s']);
                }
                "s"
            },
            Direction::West => {
                proof {
                    reveal_strlit("w");
                    assert("w"@ =~= seq!['w']);
                }
                "w"
            },
            Direction::NorthEast => {
                proof {
                    reveal_strlit("ne");
                    assert("ne"@ =~= seq!['n', 'e']);
                }
                "ne"
            },
            Direction::SouthEast => {
                proof {
                    reveal_strlit("se");
                    assert("se"@ =~= seq!['s', 'e']);
                }
                "se"
            },
            Direction::NorthWest => {
                proof {
                    reveal_strlit("nw");
                    assert("nw"@ =~= seq!['n', 'w']);
                }
                "nw"
            },
            Direction::SouthWest => {
                proof {
                    reveal_strlit("sw");
                    assert("sw"@ =~= seq!['s', 'w']);
                }
                "sw"
            },
        }
    }

    /// Whether this is one of the four cardinal (axial) directions.
    pub fn is_axial(self) -> (r: bool)
        ensures
            r == self.axial(),
    {
        match self {
            Direction::North | Direction::East | Direction::South | Direction::West => true,
            _ => false,
        }
    }

    /// Spec-level counterpart of `is_axial`.
    pub open spec fn axial(self) -> bool {
        self == Direction::North || self == Direction::East || self == Direction::South
            || self == Direction::West
    }

    /// Spec-level unit offset of this direction: `(dx, dy)`.
    pub open spec fn offset_spec(self) -> (int, int) {
        match self {
            Direction::North => (0, -1),
            Direction::NorthEast => (1, -1),
            Direction::East => (1, 0),
            Direction::SouthEast => (1, 1),
            Direction::South => (0, 1),
            Direction::SouthWest => (-1, 1),
            Direction::West => (-1, 0),
            Direction::NorthWest => (-1, -1),
        }
    }

    /// The unit vector this direction moves by, `(dx, dy)` with each
    /// component in `{-1, 0, 1}` and never both zero.
    pub fn as_offsets(self) -> (r: (i8, i8))
        ensures
            r.0 as int == self.offset_spec().0,
            r.1 as int == self.offset_spec().1,
    {
        match self {
            Direction::North => (0, -1),
            Direction::NorthEast => (1, -1),
            Direction::East => (1, 0),
            Direction::SouthEast => (1, 1),
            Direction::South => (0, 1),
            Direction::SouthWest => (-1, 1),
            Direction::West => (-1, 0),
            Direction::NorthWest => (-1, -1),
        }
    }

    /// Spec-level result of a single step from `(x, y)` on a `width` by
    /// `height` board: the stepped-to cell, or `None` when the step would
    /// leave `[0, width-1] x [0, height-1]`.
    pub open spec fn step_spec(self, x: int, y: int, width: int, height: int) -> Option<
        (int, int),
    > {
        let (dx, dy) = self.offset_spec();
        if 0 <= x + dx < width && 0 <= y + dy < height {
            Some((x + dx, y + dy))
        } else {
            None
        }
    }

    /// Applies this direction's offset to `(x, y)`, refusing to step off the
    /// `width` by `height` board: `None` means the move is blocked by a wall.
    pub fn offset_values(self, x: u8, y: u8, width: u8, height: u8) -> (r: Option<(u8, u8)>)
        requires
            width >= 1,
            height >= 1,
            x < width,
            y < height,
        ensures
            match r {
                Some(p) => self.step_spec(x as int, y as int, width as int, height as int)
                    == Some((p.0 as int, p.1 as int)),
                None => self.step_spec(x as int, y as int, width as int, height as int) is None,
            },
            r is Some ==> (r->0).0 < width && (r->0).1 < height,
    {
        let (ox, oy) = self.as_offsets();
        if ox == -1 && x == 0 {
            return None;
        }
        if ox == 1 && x >= width - 1 {
            return None;
        }
        if oy == -1 && y == 0 {
            return None;
        }
        if oy == 1 && y >= height - 1 {
            return None;
        }
        let nx: u8 = if ox == -1 {
            x - 1
        } else if ox == 1 {
            x + 1
        } else {
            x
        };
        let ny: u8 = if oy == -1 {
            y - 1
        } else if oy == 1 {
            y + 1
        } else {
            y
        };
        Some((nx, ny))
    }
}

/// Whether two directions point exactly opposite ways along one axis.
pub open spec fn opposite(a: Direction, b: Direction) -> bool {
    (a == Direction::North && b == Direction::South) || (a == Direction::South && b
        == Direction::North) || (a == Direction::East && b == Direction::West) || (a
        == Direction::West && b == Direction::East)
}

proof fn lemma_no_dash(t: Seq<char>, i: int)
    requires
        0 <= i <= t.len(),
        forall|k: int| i <= k < t.len() ==> t[k] != '-',
    ensures
        find_dash(t, i) == t.len(),
    decreases t.len() - i,
{
    if i < t.len() {
        lemma_no_dash(t, i + 1);
    }
}

/// A sequence that is already in normal form — non-empty, no whitespace at
/// either end, every character fixed by lowercasing — normalizes to itself,
/// and contains no separator if none of its characters is `'-'`.
proof fn lemma_normal_atom(t: Seq<char>)
    requires
        t.len() > 0,
        !is_space(t[0]),
        !is_space(t.last()),
        forall|k: int| 0 <= k < t.len() ==> lower_char(#[trigger] t[k]) == t[k],
    ensures
        norm(t) == t,
{
    assert(trim_start(t) == t);
    assert(trim_end(t) == t);
    assert(norm(t) =~= t);
}

/// Law: parsing the canonical token of any direction yields that direction
/// back, so `parse` is idempotent on its canonical output.
pub proof fn lemma_parse_canonical(d: Direction)
    ensures
        parse_spec(d.canonical_spec()) == Ok::<Direction, DirError>(d),
{
    let t = d.canonical_spec();
    assert(forall|k: int| 0 <= k < t.len() ==> lower_char(#[trigger] t[k]) == t[k]);
    lemma_normal_atom(t);
    assert(forall|k: int| 0 <= k < t.len() ==> t[k] != '-');
    lemma_no_dash(t, 0);
}

/// Law: a hyphenated pair whose two sides resolve to the same cardinal
/// direction, or to two opposite cardinal directions, never parses.
pub proof fn lemma_pair_same_or_opposite_fails(
    l: Seq<char>,
    r: Seq<char>,
    a: Direction,
    b: Direction,
)
    requires
        token_dir(l) == Some(a),
        token_dir(r) == Some(b),
        a.axial(),
        b.axial(),
        a == b || opposite(a, b),
    ensures
        pair_spec(l, r) is Err,
{
}

/// Law: the two straight opposite-axis pairs never parse.
pub proof fn lemma_opposite_axis_strings_fail()
    ensures
        parse_spec("north-south"@) is Err,
        parse_spec("east-west"@) is Err,
{
    reveal_strlit("north-south");
    let s = "north-south"@;
    assert(forall|k: int| 0 <= k < s.len() ==> lower_char(#[trigger] s[k]) == s[k]);
    assert(trim_start(s) == s);
    assert(trim_end(s) == s);
    assert(norm(s) =~= s);
    assert(find_dash(s, 5) == 5);
    assert(find_dash(s, 4) == 5);
    assert(find_dash(s, 3) == 5);
    assert(find_dash(s, 2) == 5);
    assert(find_dash(s, 1) == 5);
    assert(find_dash(s, 0) == 5);
    let l = s.subrange(0, 5);
    let r = s.subrange(6, 11);
    assert(forall|k: int| 0 <= k < l.len() ==> lower_char(#[trigger] l[k]) == l[k]);
    lemma_normal_atom(l);
    assert(forall|k: int| 0 <= k < r.len() ==> lower_char(#[trigger] r[k]) == r[k]);
    lemma_normal_atom(r);
    assert(forall|k: int| 0 <= k < r.len() ==> r[k] != '-');
    lemma_no_dash(r, 0);
    assert(token_dir(l) == Some(Direction::North));
    assert(token_dir(r) == Some(Direction::South));
    assert(parse_spec(s) == Err::<Direction, DirError>(DirError::BadPair));
    reveal_strlit("east-west");
    let s2 = "east-west"@;
    assert(forall|k: int| 0 <= k < s2.len() ==> lower_char(#[trigger] s2[k]) == s2[k]);
    assert(trim_start(s2) == s2);
    assert(trim_end(s2) == s2);
    assert(norm(s2) =~= s2);
    assert(find_dash(s2, 4) == 4);
    assert(find_dash(s2, 3) == 4);
    assert(find_dash(s2, 2) == 4);
    assert(find_dash(s2, 1) == 4);
    assert(find_dash(s2, 0) == 4);
    let l2 = s2.subrange(0, 4);
    let r2 = s2.subrange(5, 9);
    assert(forall|k: int| 0 <= k < l2.len() ==> lower_char(#[trigger] l2[k]) == l2[k]);
    lemma_normal_atom(l2);
    assert(forall|k: int| 0 <= k < r2.len() ==> lower_char(#[trigger] r2[k]) == r2[k]);
    lemma_normal_atom(r2);
    assert(forall|k: int| 0 <= k < r2.len() ==> r2[k] != '-');
    lemma_no_dash(r2, 0);
    assert(token_dir(l2) == Some(Direction::East));
    assert(token_dir(r2) == Some(Direction::West));
    assert(parse_spec(s2) == Err::<Direction, DirError>(DirError::BadPair));
}

/// Law: a single step never leaves the board: whenever `step_spec` is
/// defined, the resulting cell lies in `[0, width-1] x [0, height-1]`.
pub proof fn lemma_step_in_bounds(d: Direction, x: int, y: int, width: int, height: int)
    ensures
        d.step_spec(x, y, width, height) matches Some(p) ==> 0 <= p.0 < width && 0 <= p.1
            < height,
{
}

/// Law: from an interior cell — one touching no edge of the board — every
/// direction's step is defined and equals the analytic unit offset.
pub proof fn lemma_step_interior(d: Direction, x: int, y: int, width: int, height: int)
    requires
        1 <= x < width - 1,
        1 <= y < height - 1,
    ensures
        d.step_spec(x, y, width, height) == Some(
            (x + d.offset_spec().0, y + d.offset_spec().1),
        ),
{
}

} // verus!
