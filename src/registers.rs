use vstd::prelude::*;
use crate::types::{
    level_bit, level_of_bit, lemma_mode_bits_round_trip, lemma_pull_bits_round_trip, mode_bits, mode_of_bits,
    pull_bits, pull_of_bits, Level, Mode, PullUpDown,
};

verus! {

/// Number of addressable GPIO lines.
pub const MAX_LINES: usize = 54;

/// Words in the register block.
pub const REGISTER_WORDS: usize = 61;

/// First function-select word; ten 3-bit fields per word.
pub const FSEL_BASE: usize = 0;

/// First output-set word; one bit per line.
pub const SET_BASE: usize = 7;

/// First output-clear word; one bit per line.
pub const CLR_BASE: usize = 10;

/// First pin-level word; one bit per line.
pub const LEV_BASE: usize = 13;

/// First pull-control word; sixteen 2-bit fields per word.
pub const PULL_BASE: usize = 57;

/// The `mask`-wide field of `w` that starts at bit `shift`.
pub open spec fn field(w: u32, shift: u32, mask: u32) -> u32 {
    (w >> shift) & mask
}

/// `w` with the `mask`-wide field at bit `shift` replaced by `v`.
pub open spec fn with_field(w: u32, shift: u32, mask: u32, v: u32) -> u32 {
    (w & !(mask << shift)) | ((v & mask) << shift)
}

pub open spec fn fsel_index(line: int) -> int {
    FSEL_BASE + line / 10
}

pub open spec fn fsel_shift(line: int) -> u32 {
    ((line % 10) * 3) as u32
}

pub open spec fn pull_index(line: int) -> int {
    PULL_BASE + line / 16
}

pub open spec fn pull_shift(line: int) -> u32 {
    ((line % 16) * 2) as u32
}

pub open spec fn bank_bit(line: int) -> u32 {
    (line % 32) as u32
}

/// The mode that the register words give to `line`.
pub open spec fn mode_at(words: Seq<u32>, line: int) -> Mode {
    mode_of_bits(field(words[fsel_index(line)], fsel_shift(line), 7))
}

/// The pull state that the register words give to `line`.
pub open spec fn pull_at(words: Seq<u32>, line: int) -> PullUpDown {
    pull_of_bits(field(words[pull_index(line)], pull_shift(line), 3))
}

/// The level that the register words report for `line`.
pub open spec fn level_at(words: Seq<u32>, line: int) -> Level {
    level_of_bit(field(words[LEV_BASE + line / 32], bank_bit(line), 1))
}

/// The register words after setting the mode of `line`.
pub open spec fn with_mode(words: Seq<u32>, line: int, mode: Mode) -> Seq<u32> {
    words.update(
        fsel_index(line),
        with_field(words[fsel_index(line)], fsel_shift(line), 7, mode_bits(mode)),
    )
}

/// The register words after setting the pull state of `line`.
pub open spec fn with_pull(words: Seq<u32>, line: int, pull: PullUpDown) -> Seq<u32> {
    words.update(
        pull_index(line),
        with_field(words[pull_index(line)], pull_shift(line), 3, pull_bits(pull)),
    )
}

pub open spec fn lev_index(line: int) -> int {
    LEV_BASE + line / 32
}

/// The register words after `line`'s bit is written to the output-set word
/// (high) or the output-clear word (low).
pub open spec fn driven(words: Seq<u32>, line: int, level: Level) -> Seq<u32> {
    words.update(
        (if level == Level::High {
            SET_BASE
        } else {
            CLR_BASE
        }) + line / 32,
        1u32 << bank_bit(line),
    )
}

/// The register words after driving `line` to `level`: the set or clear
/// word is written and, where the line is an output, its pin level follows.
pub open spec fn with_output(words: Seq<u32>, line: int, level: Level) -> Seq<u32> {
    let w = driven(words, line, level);
    if mode_at(words, line) == Mode::Output {
        w.update(
            lev_index(line),
            with_field(w[lev_index(line)], bank_bit(line), 1, level_bit(level)),
        )
    } else {
        w
    }
}

/// The register words after `line` is returned to input with no pull.
pub open spec fn restored(words: Seq<u32>, line: int) -> Seq<u32> {
    with_pull(with_mode(words, line, Mode::Input), line, PullUpDown::Off)
}

/// Writing a 3-bit field sets it and leaves every disjoint 3-bit field alone.
pub proof fn lemma_field3(w: u32, s: u32, v: u32, s2: u32)
    requires
        s <= 29,
        s2 <= 29,
        v < 8,
    ensures
        field(with_field(w, s, 7, v), s, 7) == v,
        s2 + 3 <= s || s + 3 <= s2 ==> field(with_field(w, s, 7, v), s2, 7) == field(w, s2, 7),
{
    assert(field(with_field(w, s, 7, v), s, 7) == v) by (bit_vector)
        requires
            s <= 29,
            v < 8,
    ;
    assert(s2 + 3 <= s || s + 3 <= s2 ==> field(with_field(w, s, 7, v), s2, 7) == field(w, s2, 7))
        by (bit_vector)
        requires
            s <= 29,
            s2 <= 29,
    ;
}

/// Writing a 1-bit field sets it and leaves every other bit alone.
pub proof fn lemma_field1(w: u32, s: u32, v: u32, s2: u32)
    requires
        s <= 31,
        s2 <= 31,
        v < 2,
    ensures
        field(with_field(w, s, 1, v), s, 1) == v,
        s2 != s ==> field(with_field(w, s, 1, v), s2, 1) == field(w, s2, 1),
{
    assert(field(with_field(w, s, 1, v), s, 1) == v) by (bit_vector)
        requires
            s <= 31,
            v < 2,
    ;
    assert(s2 != s ==> field(with_field(w, s, 1, v), s2, 1) == field(w, s2, 1)) by (bit_vector)
        requires
            s <= 31,
            s2 <= 31,
    ;
}

/// Writing a 2-bit field sets it and leaves every disjoint 2-bit field alone.
pub proof fn lemma_field2(w: u32, s: u32, v: u32, s2: u32)
    requires
        s <= 30,
        s2 <= 30,
        v < 4,
    ensures
        field(with_field(w, s, 3, v), s, 3) == v,
        s2 + 2 <= s || s + 2 <= s2 ==> field(with_field(w, s, 3, v), s2, 3) == field(w, s2, 3),
{
    assert(field(with_field(w, s, 3, v), s, 3) == v) by (bit_vector)
        requires
            s <= 30,
            v < 4,
    ;
    assert(s2 + 2 <= s || s + 2 <= s2 ==> field(with_field(w, s, 3, v), s2, 3) == field(w, s2, 3))
        by (bit_vector)
        requires
            s <= 30,
            s2 <= 30,
    ;
}

/// Setting a line's mode changes no other line's mode, pull state or level.
pub proof fn lemma_with_mode(words: Seq<u32>, line: int, mode: Mode)
    requires
        words.len() == REGISTER_WORDS,
        0 <= line < MAX_LINES,
    ensures
        mode_at(with_mode(words, line, mode), line) == mode,
        forall|l: int|
            0 <= l < MAX_LINES && l != line ==> mode_at(with_mode(words, line, mode), l) == mode_at(
                words,
                l,
            ),
        forall|l: int|
            0 <= l < MAX_LINES ==> pull_at(with_mode(words, line, mode), l) == pull_at(words, l),
        forall|l: int|
            0 <= l < MAX_LINES ==> level_at(with_mode(words, line, mode), l) == level_at(words, l),
{
    let w = words[fsel_index(line)];
    let v = mode_bits(mode);
    lemma_mode_bits_round_trip(mode);
    lemma_field3(w, fsel_shift(line), v, fsel_shift(line));
    assert forall|l: int|
        0 <= l < MAX_LINES && l != line implies mode_at(with_mode(words, line, mode), l) == mode_at(
        words,
        l,
    ) by {
        if fsel_index(l) == fsel_index(line) {
            lemma_field3(w, fsel_shift(line), v, fsel_shift(l));
        }
    }
}

/// Setting a line's pull state changes no other line's pull state, mode or level.
pub proof fn lemma_with_pull(words: Seq<u32>, line: int, pull: PullUpDown)
    requires
        words.len() == REGISTER_WORDS,
        0 <= line < MAX_LINES,
    ensures
        pull_at(with_pull(words, line, pull), line) == pull,
        forall|l: int|
            0 <= l < MAX_LINES && l != line ==> pull_at(with_pull(words, line, pull), l) == pull_at(
                words,
                l,
            ),
        forall|l: int|
            0 <= l < MAX_LINES ==> mode_at(with_pull(words, line, pull), l) == mode_at(words, l),
        forall|l: int|
            0 <= l < MAX_LINES ==> level_at(with_pull(words, line, pull), l) == level_at(words, l),
{
    let w = words[pull_index(line)];
    let v = pull_bits(pull);
    lemma_pull_bits_round_trip(pull);
    lemma_field2(w, pull_shift(line), v, pull_shift(line));
    assert forall|l: int|
        0 <= l < MAX_LINES && l != line implies pull_at(with_pull(words, line, pull), l) == pull_at(
        words,
        l,
    ) by {
        if pull_index(l) == pull_index(line) {
            lemma_field2(w, pull_shift(line), v, pull_shift(l));
        }
    }
}

/// Driving a line changes no mode or pull state and no other line's level;
/// an output line then reads back the level driven, any other line keeps its
/// level.
pub proof fn lemma_with_output(words: Seq<u32>, line: int, level: Level)
    requires
        words.len() == REGISTER_WORDS,
        0 <= line < MAX_LINES,
    ensures
        with_output(words, line, level).len() == REGISTER_WORDS,
        mode_at(words, line) == Mode::Output ==> level_at(with_output(words, line, level), line)
            == level,
        mode_at(words, line) != Mode::Output ==> level_at(with_output(words, line, level), line)
            == level_at(words, line),
        forall|l: int|
            0 <= l < MAX_LINES && l != line ==> level_at(with_output(words, line, level), l)
                == level_at(words, l),
        forall|l: int|
            0 <= l < MAX_LINES ==> mode_at(with_output(words, line, level), l) == mode_at(words, l),
        forall|l: int|
            0 <= l < MAX_LINES ==> pull_at(with_output(words, line, level), l) == pull_at(words, l),
{
    let w = driven(words, line, level);
    let r = with_output(words, line, level);
    let li = lev_index(line);
    if mode_at(words, line) == Mode::Output {
        let v = level_bit(level);
        lemma_field1(w[li], bank_bit(line), v, bank_bit(line));
        assert forall|l: int|
            0 <= l < MAX_LINES && l != line implies level_at(r, l) == level_at(words, l) by {
            if lev_index(l) == li {
                lemma_field1(w[li], bank_bit(line), v, bank_bit(l));
            }
        }
    }
}

/// A restored line is input with no pull; every other line keeps its mode
/// and pull state.
pub proof fn lemma_restored(words: Seq<u32>, line: int)
    requires
        words.len() == REGISTER_WORDS,
        0 <= line < MAX_LINES,
    ensures
        restored(words, line).len() == REGISTER_WORDS,
        mode_at(restored(words, line), line) == Mode::Input,
        pull_at(restored(words, line), line) == PullUpDown::Off,
        forall|l: int|
            0 <= l < MAX_LINES && l != line ==> mode_at(restored(words, line), l) == mode_at(words, l)
                && pull_at(restored(words, line), l) == pull_at(words, l),
{
    lemma_with_mode(words, line, Mode::Input);
    lemma_with_pull(with_mode(words, line, Mode::Input), line, PullUpDown::Off);
}

/// A mode written to a line reads back unchanged, for every mode, also when
/// a neighbouring line, in the same packed word or not, is then set to
/// another mode.
pub proof fn lemma_mode_round_trip(words: Seq<u32>, line: int, mode: Mode, other: int, other_mode: Mode)
    requires
        words.len() == REGISTER_WORDS,
        0 <= line < MAX_LINES,
        0 <= other < MAX_LINES,
        other != line,
    ensures
        mode_at(with_mode(words, line, mode), line) == mode,
        mode_at(with_mode(with_mode(words, line, mode), other, other_mode), line) == mode,
        mode_at(with_mode(with_mode(words, line, mode), other, other_mode), other) == other_mode,
{
    lemma_with_mode(words, line, mode);
    lemma_with_mode(with_mode(words, line, mode), other, other_mode);
}

/// An image of the peripheral's register block: function select, output
/// set/clear, pin level and pull control, one `u32` per register.
#[derive(Debug)]
pub struct RegisterMap {
    words: Vec<u32>,
}

impl View for RegisterMap {
    type V = Seq<u32>;

    closed spec fn view(&self) -> Seq<u32> {
        self.words@
    }
}

impl RegisterMap {
    pub open spec fn wf(&self) -> bool {
        self@.len() == REGISTER_WORDS
    }

    /// Whether the block has exactly one word per register.
    pub fn is_well_formed(&self) -> (r: bool)
        ensures
            r == self.wf(),
    {
        self.words.len() == REGISTER_WORDS
    }

    /// A register block with every word zero: all lines input, pull off, low.
    pub fn new() -> (r: RegisterMap)
        ensures
            r.wf(),
            forall|i: int| 0 <= i < REGISTER_WORDS ==> r@[i] == 0,
    {
        let mut words: Vec<u32> = Vec::new();
        let mut i: usize = 0;
        while i < REGISTER_WORDS
            invariant
                i <= REGISTER_WORDS,
                words@.len() == i,
                forall|k: int| 0 <= k < i ==> words@[k] == 0,
            decreases REGISTER_WORDS - i,
        {
            words.push(0);
            i = i + 1;
        }
        RegisterMap { words }
    }

    /// A register block holding the given words; `None` unless there are
    /// exactly as many as the block has registers.
    pub fn from_words(words: Vec<u32>) -> (r: Option<RegisterMap>)
        ensures
            words@.len() == REGISTER_WORDS <==> r.is_some(),
            r matches Some(m) ==> m.wf() && m@ == words@,
    {
        if words.len() == REGISTER_WORDS {
            Some(RegisterMap { words })
        } else {
            None
        }
    }

    /// The register word at `index`.
    pub fn word(&self, index: usize) -> (r: u32)
        requires
            self.wf(),
            index < REGISTER_WORDS,
        ensures
            r == self@[index as int],
    {
        self.words[index]
    }

    /// Stores a word read back from the hardware, such as a fresh pin level.
    pub fn load_word(&mut self, index: usize, value: u32)
        requires
            old(self).wf(),
            index < REGISTER_WORDS,
        ensures
            final(self)@ == old(self)@.update(index as int, value),
            final(self).wf(),
    {
        self.words.set(index, value);
    }

    /// The current mode of `line`.
    pub fn read_mode(&self, line: u8) -> (r: Mode)
        requires
            self.wf(),
            line < MAX_LINES,
        ensures
            r == mode_at(self@, line as int),
    {
        let idx: usize = FSEL_BASE + (line as usize) / 10;
        let shift: u32 = ((line as u32) % 10) * 3;
        let w: u32 = self.words[idx];
        let b: u32 = (w >> shift) & 7;
        assert(b < 8) by (bit_vector)
            requires
                b == (w >> shift) & 7,
        ;
        Mode::from_bits(b)
    }

    /// Sets the mode of `line` by a read-modify-write of its function-select
    /// word; the other lines packed into that word keep their modes.
    pub fn write_mode(&mut self, line: u8, mode: Mode)
        requires
            old(self).wf(),
            line < MAX_LINES,
        ensures
            final(self).wf(),
            final(self)@ == with_mode(old(self)@, line as int, mode),
            mode_at(final(self)@, line as int) == mode,
            forall|l: int|
                0 <= l < MAX_LINES && l != line ==> mode_at(final(self)@, l) == mode_at(
                    old(self)@,
                    l,
                ),
            forall|l: int| 0 <= l < MAX_LINES ==> pull_at(final(self)@, l) == pull_at(old(self)@, l),
            forall|l: int|
                0 <= l < MAX_LINES ==> level_at(final(self)@, l) == level_at(old(self)@, l),
    {
        let idx: usize = FSEL_BASE + (line as usize) / 10;
        let shift: u32 = ((line as u32) % 10) * 3;
        let v: u32 = mode.bits();
        let w: u32 = self.words[idx];
        let nw: u32 = (w & !(7u32 << shift)) | ((v & 7) << shift);
        self.words.set(idx, nw);
        proof {
            lemma_with_mode(old(self)@, line as int, mode);
        }
    }

    /// The current pull state of `line`.
    pub fn read_pull(&self, line: u8) -> (r: PullUpDown)
        requires
            self.wf(),
            line < MAX_LINES,
        ensures
            r == pull_at(self@, line as int),
    {
        let idx: usize = PULL_BASE + (line as usize) / 16;
        let shift: u32 = ((line as u32) % 16) * 2;
        PullUpDown::from_bits((self.words[idx] >> shift) & 3)
    }

    /// Sets the pull state of `line` by a read-modify-write of its
    /// pull-control word; the other lines of that word keep theirs.
    pub fn set_pull(&mut self, line: u8, pull: PullUpDown)
        requires
            old(self).wf(),
            line < MAX_LINES,
        ensures
            final(self).wf(),
            final(self)@ == with_pull(old(self)@, line as int, pull),
            pull_at(final(self)@, line as int) == pull,
            forall|l: int|
                0 <= l < MAX_LINES && l != line ==> pull_at(final(self)@, l) == pull_at(
                    old(self)@,
                    l,
                ),
            forall|l: int| 0 <= l < MAX_LINES ==> mode_at(final(self)@, l) == mode_at(old(self)@, l),
            forall|l: int|
                0 <= l < MAX_LINES ==> level_at(final(self)@, l) == level_at(old(self)@, l),
    {
        let idx: usize = PULL_BASE + (line as usize) / 16;
        let shift: u32 = ((line as u32) % 16) * 2;
        let v: u32 = pull.bits();
        let w: u32 = self.words[idx];
        let nw: u32 = (w & !(3u32 << shift)) | ((v & 3) << shift);
        self.words.set(idx, nw);
        proof {
            lemma_with_pull(old(self)@, line as int, pull);
        }
    }

    /// The level reported for `line`.
    pub fn read_level(&self, line: u8) -> (r: Level)
        requires
            self.wf(),
            line < MAX_LINES,
        ensures
            r == level_at(self@, line as int),
    {
        let idx: usize = LEV_BASE + (line as usize) / 32;
        let bit: u32 = (line as u32) % 32;
        Level::from_bit((self.words[idx] >> bit) & 1)
    }

    /// Drives `line` to `level` by writing its bit to the output-set word
    /// (high) or the output-clear word (low); no other register changes.
    pub fn set_output(&mut self, line: u8, level: Level)
        requires
            old(self).wf(),
            line < MAX_LINES,
        ensures
            final(self).wf(),
            final(self)@ == with_output(old(self)@, line as int, level),
            mode_at(old(self)@, line as int) == Mode::Output ==> level_at(final(self)@, line as int)
                == level,
            mode_at(old(self)@, line as int) != Mode::Output ==> level_at(final(self)@, line as int)
                == level_at(old(self)@, line as int),
            forall|l: int|
                0 <= l < MAX_LINES && l != line ==> level_at(final(self)@, l) == level_at(
                    old(self)@,
                    l,
                ),
            forall|l: int| 0 <= l < MAX_LINES ==> mode_at(final(self)@, l) == mode_at(old(self)@, l),
            forall|l: int| 0 <= l < MAX_LINES ==> pull_at(final(self)@, l) == pull_at(old(self)@, l),
    {
        let is_output = self.read_mode(line) == Mode::Output;
        let base: usize = match level {
            Level::High => SET_BASE,
            Level::Low => CLR_BASE,
        };
        let idx: usize = base + (line as usize) / 32;
        let bit: u32 = (line as u32) % 32;
        self.words.set(idx, 1u32 << bit);
        if is_output {
            let li: usize = LEV_BASE + (line as usize) / 32;
            let w: u32 = self.words[li];
            let v: u32 = level.bit();
            self.words.set(li, (w & !(1u32 << bit)) | ((v & 1) << bit));
        }
        proof {
            lemma_with_output(old(self)@, line as int, level);
        }
    }
}

} // verus!
