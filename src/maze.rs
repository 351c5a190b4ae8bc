use vstd::prelude::*;
use vstd::string::StrSliceExecFns;

use crate::geometry::{CELL_HEIGHT, CELL_WIDTH, Vec2};
use crate::tile::code_tile;

verus! {

/// A level description: grid size, spawn cells, and the two layers as strings of codes.
#[derive(Debug)]
pub struct MazeConfig {
    pub size: (i32, i32),
    pub player: (i32, i32),
    pub axes: Vec<(i32, i32)>,
    pub pickaxes: Vec<(i32, i32)>,
    pub shovels: Vec<(i32, i32)>,
    pub gears: Vec<(i32, i32)>,
    pub ground: String,
    pub objects: String,
}

/// Why a maze description could not be turned into a map.
#[derive(Clone, Copy, Debug, PartialEq, Eq, Structural)]
pub enum MazeError {
    /// A character that is no tile code.
    InvalidId(char),
    /// The ground string ran out before the grid was full.
    GroundTooShort,
    /// The object string ran out before the grid was full.
    ObjectsTooShort,
}

/// Characters that separate codes and otherwise count for nothing.
pub open spec fn is_layout(c: char) -> bool {
    c == '\n' || c == ' ' || c == '\r'
}

pub open spec fn counts(c: char) -> bool {
    !is_layout(c)
}

/// The codes of a layer string: everything but newlines, spaces and carriage returns.
pub open spec fn significant(s: Seq<char>) -> Seq<char> {
    s.filter(|c: char| counts(c))
}

/// The first problem among the first `n` codes of `s`: a code that is no tile code,
/// or `short` when `s` holds fewer than `n` codes.
pub open spec fn scan_error(s: Seq<char>, n: int, short: MazeError) -> Option<MazeError>
    decreases n,
{
    if n <= 0 {
        None
    } else {
        match scan_error(s, n - 1, short) {
            Some(e) => Some(e),
            None => if n - 1 >= s.len() {
                Some(short)
            } else if code_tile(s[n - 1]) is None {
                Some(MazeError::InvalidId(s[n - 1]))
            } else {
                None
            },
        }
    }
}

/// Once a problem is found, scanning further finds the same one.
pub proof fn lemma_scan_error_stays(s: Seq<char>, a: int, b: int, short: MazeError)
    requires
        a <= b,
        scan_error(s, a, short) is Some,
    ensures
        scan_error(s, b, short) == scan_error(s, a, short),
    decreases b - a,
{
    if a < b {
        lemma_scan_error_stays(s, a, b - 1, short);
    }
}

/// Scanning finds the first position without a code: when the first `j` characters
/// of `s` are codes and position `j` (inside the first `n`) is past the end of `s` or
/// holds a character that is no code, the problem is `short` or that character.
pub proof fn lemma_first_problem(s: Seq<char>, n: int, j: int, short: MazeError)
    requires
        0 <= j < n,
        j <= s.len(),
        forall|k: int| 0 <= k < j ==> #[trigger] code_tile(s[k]) is Some,
        j == s.len() || code_tile(s[j]) is None,
    ensures
        scan_error(s, n, short) == if j == s.len() { Some(short) } else { Some(MazeError::InvalidId(s[j])) },
{
    lemma_no_problem_before(s, j, short);
    lemma_scan_error_stays(s, j + 1, n, short);
}

proof fn lemma_no_problem_before(s: Seq<char>, j: int, short: MazeError)
    requires
        0 <= j <= s.len(),
        forall|k: int| 0 <= k < j ==> #[trigger] code_tile(s[k]) is Some,
    ensures
        scan_error(s, j, short) is None,
    decreases j,
{
    if j > 0 {
        lemma_no_problem_before(s, j - 1, short);
    }
}

/// The codes of a non-empty string are those of its first character followed by
/// those of the rest.
proof fn lemma_significant_front(s: Seq<char>)
    requires
        s.len() > 0,
    ensures
        significant(s) == if counts(s[0]) { seq![s[0]] + significant(s.drop_first()) } else { significant(s.drop_first()) },
{
    let p = |c: char| counts(c);
    assert(s == seq![s[0]] + s.drop_first());
    Seq::filter_distributes_over_add(seq![s[0]], s.drop_first(), p);
    Seq::<char>::empty().lemma_filter_push(s[0], p);
    assert(Seq::<char>::empty().push(s[0]) == seq![s[0]]);
    assert(Seq::<char>::empty().filter(p) == Seq::<char>::empty());
}

/// The next code of `text` at or after character `pos`, and the position just past it;
/// `None` (with the end position) when only layout characters are left.
pub fn next_significant(text: &str, len: usize, pos: usize) -> (r: (Option<char>, usize))
    requires
        len == text@.len(),
        pos <= len,
    ensures
        pos <= r.1 <= len,
        match r.0 {
            Some(c) => significant(text@.subrange(pos as int, len as int))
                == seq![c] + significant(text@.subrange(r.1 as int, len as int)),
            None => significant(text@.subrange(pos as int, len as int)) == Seq::<char>::empty(),
        },
{
    let mut p: usize = pos;
    while p < len
        invariant
            len == text@.len(),
            pos <= p <= len,
            significant(text@.subrange(pos as int, len as int)) == significant(text@.subrange(p as int, len as int)),
        decreases len - p,
    {
        let c = text.get_char(p);
        proof {
            let rest = text@.subrange(p as int, len as int);
            lemma_significant_front(rest);
            assert(rest.drop_first() == text@.subrange(p + 1, len as int));
        }
        if c != '\n' && c != ' ' && c != '\r' {
            return (Some(c), p + 1);
        }
        p += 1;
    }
    assert(text@.subrange(p as int, len as int) == Seq::<char>::empty());
    assert(Seq::<char>::empty().filter(|c: char| counts(c)) == Seq::<char>::empty());
    (None, len)
}


/// The world position of the top-left corner of grid cell `cell`, where items are placed.
pub fn cell_position(cell: (i32, i32)) -> (r: Vec2)
    ensures
        r.x == cell.0 * CELL_WIDTH,
        r.y == cell.1 * CELL_HEIGHT,
{
    Vec2 { x: cell.0 as i64 * CELL_WIDTH, y: cell.1 as i64 * CELL_HEIGHT }
}

impl MazeConfig {
    /// Where the actor starts: the centre of the spawn cell.
    pub fn player_position(&self) -> (r: Vec2)
        ensures
            r.x == self.player.0 * CELL_WIDTH + CELL_WIDTH / 2,
            r.y == self.player.1 * CELL_HEIGHT + CELL_HEIGHT / 2,
    {
        Vec2 {
            x: self.player.0 as i64 * CELL_WIDTH + CELL_WIDTH / 2,
            y: self.player.1 as i64 * CELL_HEIGHT + CELL_HEIGHT / 2,
        }
    }
}

} // verus!
