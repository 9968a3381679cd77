//! Definitions shared by all games: coordinates, hashes and position histories.
use vstd::prelude::*;

verus! {

/// Type of a board dimension or coordinate.
pub type DimT = u8;

/// Whether to display pieces as ASCII or Unicode characters.
#[derive(Debug, Copy, Clone, Eq, PartialEq, Structural)]
pub enum CharType {
    Ascii,
    Unicode,
}

/// The outcome of a game from the point of view of one player.
#[derive(Debug, Copy, Clone, Eq, PartialEq, Structural)]
pub enum PlayerResult {
    Win,
    Lose,
    Draw,
}

/// The letter of a file, 0 being `a`.
pub fn file_to_char(file: DimT) -> (c: char)
    requires
        file < 26,
    ensures
        c as int == file as int + 97,
{
    (file + 97) as char
}

/// The file of a lowercase letter, `a` being 0.
pub fn char_to_file(file: char) -> (r: DimT)
    requires
        'a' <= file <= 'z',
    ensures
        r as int == file as int - 97,
{
    (file as u32 - 97) as u8
}

/// The height of a board.
#[derive(Debug, Copy, Clone, Eq, PartialEq, Ord, PartialOrd, Hash)]
pub struct Height(pub DimT);

impl Height {
    /// The value must fit into a `DimT`.
    pub fn new(val: usize) -> (r: Self)
        requires
            val <= u8::MAX,
        ensures
            r.0 == val,
    {
        Height(val as u8)
    }

    pub fn get(self) -> (r: DimT)
        ensures
            r == self.0,
    {
        self.0
    }

    pub fn val(self) -> (r: usize)
        ensures
            r == self.0,
    {
        self.0 as usize
    }
}

/// The width of a board.
#[derive(Debug, Copy, Clone, Eq, PartialEq, Ord, PartialOrd, Hash)]
pub struct Width(pub DimT);

impl Width {
    /// The value must fit into a `DimT`.
    pub fn new(val: usize) -> (r: Self)
        requires
            val <= u8::MAX,
        ensures
            r.0 == val,
    {
        Width(val as u8)
    }

    pub fn get(self) -> (r: DimT)
        ensures
            r == self.0,
    {
        self.0
    }

    pub fn val(self) -> (r: usize)
        ensures
            r == self.0,
    {
        self.0 as usize
    }
}

/// The two players of a game.
pub trait Color: Sized + Copy {
    /// Whether this is the player who moves first.
    spec fn spec_is_first(self) -> bool;

    /// The player who moves first.
    fn first() -> (r: Self)
        ensures
            r.spec_is_first(),
    ;

    /// The player who moves second.
    fn second() -> (r: Self)
        ensures
            !r.spec_is_first(),
    ;

    /// Whether this is the player who moves first.
    fn is_first(self) -> (r: bool)
        ensures
            r == self.spec_is_first(),
    ;

    /// The opponent.
    fn other(self) -> (r: Self)
        ensures
            r.spec_is_first() == !self.spec_is_first(),
    ;

    /// The letter of the player in a FEN.
    fn to_char(self) -> (r: char);
}

/// The settings of a game, which decide how positions are written.
pub trait Settings {
    /// A description of the settings, if they differ from the default.
    fn text(&self) -> (r: Option<String>)
        ensures
            r.is_none(),
    {
        None
    }
}

/// The squares of a board.
pub trait Coordinates: Sized + Copy {
    /// The coordinates lie on the board.
    spec fn valid(self) -> bool;

    /// Mirrors the coordinates vertically.
    fn flip_up_down(self) -> (r: Self)
        requires
            self.valid(),
        ensures
            r.valid(),
    ;

    /// Mirrors the coordinates horizontally.
    fn flip_left_right(self) -> (r: Self)
        requires
            self.valid(),
        ensures
            r.valid(),
    ;
}

/// The size of a board with coordinates `C`.
pub trait Size<C: Coordinates>: Sized + Copy {
    /// The number of squares.
    fn num_squares(self) -> (r: usize);

    /// An index of the coordinates, different for different valid coordinates.
    fn internal_key(self, coordinates: C) -> (r: usize);

    /// The coordinates with the given index, the inverse of `internal_key`.
    fn to_coordinates_unchecked(self, internal_key: usize) -> (r: C);

    /// Whether the coordinates lie on the board.
    fn coordinates_valid(self, coordinates: C) -> (r: bool)
        ensures
            r == coordinates.valid(),
    ;
}

/// A kind of piece of a game, including the empty square.
pub trait AbstractPieceType: Sized + Copy {
    /// The empty square.
    fn empty() -> (r: Self);

    /// The character of the piece.
    fn to_char(self, typ: CharType) -> (r: char);

    /// The piece named by a character, if any.
    fn from_char(c: char) -> (r: Option<Self>);

    /// The index of the piece without its color.
    fn to_uncolored_idx(self) -> (r: usize);
}

/// A hash of a position.
#[derive(Copy, Clone, Eq, PartialEq, Structural, Default, Debug, Hash)]
pub struct PosHash(pub u64);

/// A record of the hashes of the positions played before the current one, oldest first.
pub trait BoardHistory: Sized {
    /// The hashes recorded, oldest first.
    spec fn hashes(&self) -> Seq<PosHash>;

    /// Whether `push` records hashes (a history that records nothing stays empty).
    spec fn records(&self) -> bool;

    /// The number of repetitions that always suffices for this history, if it fixes one.
    spec fn spec_override_count(&self) -> Option<usize>;

    fn len(&self) -> (r: usize)
        ensures
            r == self.hashes().len(),
    ;

    fn is_empty(&self) -> (r: bool)
        ensures
            r == (self.hashes().len() == 0),
    ;

    /// Whether the position `plies_ago` plies before the end of the history has hash `hash`.
    fn is_repetition(&self, hash: PosHash, plies_ago: usize) -> (r: bool)
        requires
            1 <= plies_ago <= self.hashes().len(),
        ensures
            r == (hash == self.hashes()[self.hashes().len() - plies_ago]),
    ;

    /// Appends a hash, if this history records hashes.
    fn push(&mut self, hash: PosHash)
        ensures
            final(self).hashes() == (if old(self).records() {
                old(self).hashes().push(hash)
            } else {
                old(self).hashes()
            }),
            final(self).records() == old(self).records(),
            final(self).spec_override_count() == old(self).spec_override_count(),
    ;

    /// Removes the last hash; a history that records hashes must not be empty.
    fn pop(&mut self)
        requires
            old(self).records() ==> old(self).hashes().len() > 0,
        ensures
            final(self).hashes() == (if old(self).records() {
                old(self).hashes().drop_last()
            } else {
                old(self).hashes()
            }),
            final(self).records() == old(self).records(),
            final(self).spec_override_count() == old(self).spec_override_count(),
    ;

    /// Removes all hashes.
    fn clear(&mut self)
        ensures
            final(self).hashes().len() == 0,
            final(self).records() == old(self).records(),
            final(self).spec_override_count() == old(self).spec_override_count(),
    ;

    /// The number of repetitions that always suffices for this history, if it fixes one.
    fn override_repetition_count(&self) -> (r: Option<usize>)
        ensures
            r == self.spec_override_count(),
    ;
}

/// A history that records nothing, so no position counts as repeated.
#[derive(Copy, Clone, Eq, PartialEq, Debug, Default)]
pub struct NoHistory {}

impl BoardHistory for NoHistory {
    open spec fn hashes(&self) -> Seq<PosHash> {
        Seq::empty()
    }

    open spec fn records(&self) -> bool {
        false
    }

    open spec fn spec_override_count(&self) -> Option<usize> {
        None
    }

    fn len(&self) -> (r: usize) {
        0
    }

    fn is_empty(&self) -> (r: bool) {
        true
    }

    fn is_repetition(&self, hash: PosHash, plies_ago: usize) -> (r: bool) {
        false
    }

    fn push(&mut self, hash: PosHash) {
    }

    fn pop(&mut self) {
    }

    fn clear(&mut self) {
    }

    fn override_repetition_count(&self) -> (r: Option<usize>) {
        None
    }
}

/// A history of position hashes, oldest first.
#[derive(Clone, Eq, PartialEq, Default, Debug)]
pub struct ZobristHistory(pub Vec<PosHash>);

impl ZobristHistory {
    /// An empty history.
    pub fn with_capacity(capacity: usize) -> (r: Self)
        ensures
            r.0@.len() == 0,
    {
        ZobristHistory(Vec::new())
    }

    /// An empty history.
    pub fn new() -> (r: Self)
        ensures
            r.0@.len() == 0,
    {
        ZobristHistory(Vec::new())
    }
}

impl BoardHistory for ZobristHistory {
    open spec fn hashes(&self) -> Seq<PosHash> {
        self.0@
    }

    open spec fn records(&self) -> bool {
        true
    }

    open spec fn spec_override_count(&self) -> Option<usize> {
        None
    }

    fn len(&self) -> (r: usize) {
        self.0.len()
    }

    fn is_empty(&self) -> (r: bool) {
        self.0.len() == 0
    }

    fn is_repetition(&self, hash: PosHash, plies_ago: usize) -> (r: bool) {
        hash == self.0[self.0.len() - plies_ago]
    }

    fn push(&mut self, hash: PosHash) {
        self.0.push(hash);
    }

    fn pop(&mut self) {
        let _ = self.0.pop();
    }

    fn clear(&mut self) {
        self.0.clear();
    }

    fn override_repetition_count(&self) -> (r: Option<usize>) {
        None
    }
}

/// A history that counts a single repetition as enough for a draw.
#[derive(Clone, Eq, PartialEq, Default, Debug)]
pub struct ZobristHistory2Fold(pub ZobristHistory);

impl BoardHistory for ZobristHistory2Fold {
    open spec fn hashes(&self) -> Seq<PosHash> {
        self.0.0@
    }

    open spec fn records(&self) -> bool {
        true
    }

    open spec fn spec_override_count(&self) -> Option<usize> {
        Some(2)
    }

    fn len(&self) -> (r: usize) {
        self.0.len()
    }

    fn is_empty(&self) -> (r: bool) {
        self.0.is_empty()
    }

    fn is_repetition(&self, hash: PosHash, plies_ago: usize) -> (r: bool) {
        self.0.is_repetition(hash, plies_ago)
    }

    fn push(&mut self, hash: PosHash) {
        self.0.push(hash);
    }

    fn pop(&mut self) {
        self.0.pop();
    }

    fn clear(&mut self) {
        self.0.clear();
    }

    fn override_repetition_count(&self) -> (r: Option<usize>) {
        Some(2)
    }
}

/// Number of even `i` in `[2, stop]` with `hist[len - i] == hash`.
pub open spec fn count_repetitions(hist: Seq<PosHash>, hash: PosHash, stop: int) -> nat
    decreases stop,
{
    if stop < 2 {
        0
    } else {
        let prev = count_repetitions(hist, hash, stop - 2);
        if hist[hist.len() - stop] == hash {
            prev + 1
        } else {
            prev
        }
    }
}

/// The repetition count that applies: the history's own if it fixes one.
pub open spec fn effective_count(count: usize, override_count: Option<usize>) -> usize {
    match override_count {
        Some(c) => c,
        None => count,
    }
}

/// The largest even number that is at most `n`.
pub open spec fn round_down_even(n: int) -> int {
    n - n % 2
}

/// Whether `hash` occurs often enough in the history, looking back an even number of plies,
/// for the position to appear `count` times.
pub open spec fn spec_n_fold_repetition(
    count: int,
    hist: Seq<PosHash>,
    hash: PosHash,
    max_lookback: int,
) -> bool {
    let stop = if hist.len() < max_lookback {
        hist.len() as int
    } else {
        max_lookback
    };
    stop >= 2 && count_repetitions(hist, hash, round_down_even(stop)) >= 1 && count_repetitions(
        hist,
        hash,
        round_down_even(stop),
    ) + 1 >= count
}

/// Whether the position with hash `hash` appears at least `count` times counting itself,
/// looking at every second of the last `max_lookback` positions of the history.
/// A history that fixes its own repetition count overrides `count`.
pub fn n_fold_repetition<H: BoardHistory>(
    count: usize,
    history: &H,
    hash: PosHash,
    max_lookback: usize,
) -> (r: bool)
    requires
        count >= 1,
    ensures
        r == spec_n_fold_repetition(
            effective_count(count, history.spec_override_count()) as int,
            history.hashes(),
            hash,
            max_lookback as int,
        ),
{
    let n: usize = match history.override_repetition_count() {
        Some(c) => c,
        None => count,
    };
    let len = history.len();
    let stop = if len < max_lookback {
        len
    } else {
        max_lookback
    };
    if stop < 2 {
        return false;
    }
    let mut found: usize = 0;
    let mut i: usize = 2;
    loop
        invariant
            2 <= i <= stop,
            i % 2 == 0,
            stop <= len,
            stop == (if len < max_lookback {
                len
            } else {
                max_lookback
            }),
            len == history.hashes().len(),
            found == count_repetitions(history.hashes(), hash, i - 2),
            found <= i,
            found + 1 < n || found == 0,
            n == effective_count(count, history.spec_override_count()),
        decreases stop - i,
    {
        if history.is_repetition(hash, i) {
            found = found + 1;
            if found + 1 >= n {
                proof {
                    assert(found == count_repetitions(history.hashes(), hash, i as int));
                    lemma_count_repetitions_mono(
                        history.hashes(),
                        hash,
                        i as int,
                        round_down_even(stop as int),
                    );
                }
                return true;
            }
        }
        assert(found == count_repetitions(history.hashes(), hash, i as int));
        if stop - i < 2 {
            assert(i == round_down_even(stop as int));
            return false;
        }
        i = i + 2;
    }
}

proof fn lemma_count_repetitions_mono(hist: Seq<PosHash>, hash: PosHash, a: int, b: int)
    requires
        a <= b,
        a % 2 == 0,
        b % 2 == 0,
    ensures
        count_repetitions(hist, hash, a) <= count_repetitions(hist, hash, b),
    decreases b - a,
{
    if a < b {
        lemma_count_repetitions_mono(hist, hash, a, b - 2);
    }
}

} // verus!
