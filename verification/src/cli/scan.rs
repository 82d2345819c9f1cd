//! Which patterns are handed to the glob builder. A pattern is scanned
//! once, from left to right, by the grammar of its brackets, escapes and
//! counts; the scan measures how deep its groups nest, how large its counts
//! are, and how much the pattern asks to be matched.

use vstd::prelude::*;
use crate::decimal::{digit_value, is_digit};
use crate::text::chars_of;

verus! {

/// Most groups, alternatives and repetitions alike, that may be open at one
/// place of a pattern that is tried.
pub const MAX_DEPTH: usize = 32;

/// The greatest count that a repetition of a pattern that is tried may
/// name: the greatest that 32 bits hold.
pub const MAX_COUNT: u64 = 4_294_967_295;

/// The greatest weight of a pattern that is tried. Four times this weight
/// still fits 32 bits.
pub const MAX_WEIGHT: u64 = 1_073_741_823;

/// Where a scan stands in a pattern.
#[derive(Clone, Copy, Debug, PartialEq, Eq)]
pub enum Mode {
    /// Between tokens, or in a literal.
    Plain,
    /// Behind a backslash outside a character class.
    Escaped,
    /// In a character class, behind its `[`.
    Class,
    /// Behind a backslash in a character class.
    ClassEscaped,
    /// In a group of flags, behind its `(`.
    Flags,
    /// Behind the colon of a repetition, at its count or its lower bound.
    Lower,
    /// Behind the comma of a repetition, at its upper bound.
    Upper,
}

/// What a scan knows of the part of a pattern that it has passed.
///
/// The weight of a piece of a pattern counts what the piece asks to be
/// matched: a character of a literal, a separator, a character class and
/// the sign of a wildcard weigh one each; a sequence and an alternative
/// weigh what their parts weigh together; a repetition weighs what stands
/// in it, times its count or its lower bound where that is not zero. A
/// piece that stands for one text only stands for a text of no more bytes
/// than four times its weight.
pub struct ScanView {
    pub mode: Mode,
    /// For each group that is open, outermost first, the weight of what
    /// stands in the group around it before this group.
    pub outer: Seq<u64>,
    /// The weight of what stands in the innermost open group so far.
    pub weight: u64,
    /// The lower bound of the repetition whose upper bound is being read.
    pub lower: u64,
    /// The number that is being read.
    pub count: u64,
    /// Whether every bound was kept so far.
    pub safe: bool,
}

/// The factor that a repetition with the count or lower bound `times`
/// multiplies its weight by.
pub open spec fn spec_factor(times: u64) -> int {
    if times == 0 {
        1
    } else {
        times as int
    }
}

impl ScanView {
    /// The scan before the first character.
    pub open spec fn start() -> ScanView {
        ScanView {
            mode: Mode::Plain,
            outer: Seq::empty(),
            weight: 0,
            lower: 0,
            count: 0,
            safe: true,
        }
    }

    /// This scan in the mode `mode`.
    pub open spec fn at(self, mode: Mode) -> ScanView {
        ScanView {
            mode,
            outer: self.outer,
            weight: self.weight,
            lower: self.lower,
            count: self.count,
            safe: self.safe,
        }
    }

    /// This scan once a bound was broken.
    pub open spec fn refused(self) -> ScanView {
        ScanView {
            mode: self.mode,
            outer: self.outer,
            weight: self.weight,
            lower: self.lower,
            count: self.count,
            safe: false,
        }
    }

    /// This scan after one more piece that weighs one.
    pub open spec fn leaf(self, mode: Mode) -> ScanView {
        if self.weight < MAX_WEIGHT {
            ScanView {
                mode,
                outer: self.outer,
                weight: (self.weight + 1) as u64,
                lower: self.lower,
                count: self.count,
                safe: self.safe,
            }
        } else {
            self.refused()
        }
    }

    /// This scan after the bracket that opens a group.
    pub open spec fn opened(self) -> ScanView {
        if self.outer.len() < MAX_DEPTH {
            ScanView {
                mode: Mode::Plain,
                outer: self.outer.push(self.weight),
                weight: 0,
                lower: self.lower,
                count: self.count,
                safe: self.safe,
            }
        } else {
            self.refused()
        }
    }

    /// This scan after the bracket that closes the innermost group, which
    /// is repeated `times` times: once where it is an alternative or names
    /// no count.
    pub open spec fn closed(self, times: u64) -> ScanView {
        if self.outer.len() == 0 {
            self.at(Mode::Plain)
        } else if self.outer.last() + self.weight * spec_factor(times) <= MAX_WEIGHT {
            ScanView {
                mode: Mode::Plain,
                outer: self.outer.drop_last(),
                weight: (self.outer.last() + self.weight * spec_factor(times)) as u64,
                lower: self.lower,
                count: self.count,
                safe: self.safe,
            }
        } else {
            self.refused()
        }
    }

    /// This scan after the colon of a repetition.
    pub open spec fn counting(self) -> ScanView {
        ScanView {
            mode: Mode::Lower,
            outer: self.outer,
            weight: self.weight,
            lower: 0,
            count: 0,
            safe: self.safe,
        }
    }

    /// This scan after the comma between the bounds of a repetition.
    pub open spec fn bounded(self) -> ScanView {
        ScanView {
            mode: Mode::Upper,
            outer: self.outer,
            weight: self.weight,
            lower: self.count,
            count: 0,
            safe: self.safe,
        }
    }

    /// This scan after one more digit of the number that is being read.
    pub open spec fn digit(self, c: char) -> ScanView {
        if self.count * 10 + digit_value(c) <= MAX_COUNT {
            ScanView {
                mode: self.mode,
                outer: self.outer,
                weight: self.weight,
                lower: self.lower,
                count: (self.count * 10 + digit_value(c)) as u64,
                safe: self.safe,
            }
        } else {
            self.refused()
        }
    }

    /// This scan after the character `c`. Once a bound was broken nothing
    /// changes any more.
    pub open spec fn step(self, c: char) -> ScanView {
        if !self.safe {
            self
        } else {
            match self.mode {
                Mode::Plain => if c == '\\' {
                    self.at(Mode::Escaped)
                } else if c == '[' {
                    self.leaf(Mode::Class)
                } else if c == '(' {
                    self.at(Mode::Flags)
                } else if c == '{' || c == '<' {
                    self.opened()
                } else if c == '}' || c == '>' {
                    self.closed(1)
                } else if c == ':' {
                    self.counting()
                } else if c == ',' || c == ')' {
                    self
                } else {
                    self.leaf(Mode::Plain)
                },
                Mode::Escaped => self.leaf(Mode::Plain),
                Mode::Class => if c == '\\' {
                    self.at(Mode::ClassEscaped)
                } else if c == ']' {
                    self.at(Mode::Plain)
                } else {
                    self
                },
                Mode::ClassEscaped => self.at(Mode::Class),
                Mode::Flags => if c == ')' {
                    self.at(Mode::Plain)
                } else {
                    self
                },
                Mode::Lower => if is_digit(c) {
                    self.digit(c)
                } else if c == ',' {
                    self.bounded()
                } else if c == '>' {
                    self.closed(self.count)
                } else {
                    self.at(Mode::Plain)
                },
                Mode::Upper => if is_digit(c) {
                    self.digit(c)
                } else if c == '>' {
                    self.closed(self.lower)
                } else {
                    self.at(Mode::Plain)
                },
            }
        }
    }

    /// Whether the numbers of this scan are within their bounds.
    pub open spec fn sound(self) -> bool {
        &&& self.outer.len() <= MAX_DEPTH
        &&& self.weight <= MAX_WEIGHT
        &&& forall|i: int| 0 <= i < self.outer.len() ==> #[trigger] self.outer[i] <= MAX_WEIGHT
        &&& self.lower <= MAX_COUNT
        &&& self.count <= MAX_COUNT
    }
}

/// The scan after the characters of `pattern`.
pub open spec fn spec_scan(pattern: Seq<char>) -> ScanView
    decreases pattern.len(),
{
    if pattern.len() == 0 {
        ScanView::start()
    } else {
        spec_scan(pattern.drop_last()).step(pattern.last())
    }
}

/// Whether a pattern is tried: at no place more than [`MAX_DEPTH`] groups
/// are open, no number behind the colon of a repetition is greater than
/// [`MAX_COUNT`], and neither the pattern nor a part of it weighs more than
/// [`MAX_WEIGHT`].
pub open spec fn spec_glob_safe(pattern: Seq<char>) -> bool {
    spec_scan(pattern).safe
}

/// Whether `c` opens a group or a count.
pub open spec fn opens(c: char) -> bool {
    c == '{' || c == '<' || c == ':'
}

/// A pattern without a group and without a count is tried, however many
/// brackets and digits it holds, unless it is longer than [`MAX_WEIGHT`].
pub proof fn lemma_flat_is_tried(pattern: Seq<char>)
    requires
        pattern.len() <= MAX_WEIGHT,
        forall|i: int| 0 <= i < pattern.len() ==> !opens(#[trigger] pattern[i]),
    ensures
        spec_glob_safe(pattern),
        spec_scan(pattern).outer.len() == 0,
        spec_scan(pattern).weight <= pattern.len(),
        spec_scan(pattern).mode != Mode::Lower,
        spec_scan(pattern).mode != Mode::Upper,
    decreases pattern.len(),
{
    if pattern.len() > 0 {
        let before = pattern.drop_last();
        assert forall|i: int| 0 <= i < before.len() implies !opens(#[trigger] before[i]) by {
            assert(before[i] == pattern[i]);
        }
        lemma_flat_is_tried(before);
        assert(!opens(pattern[pattern.len() - 1]));
    }
}

/// A scan as it runs.
struct Scan {
    mode: Mode,
    outer: Vec<u64>,
    weight: u64,
    lower: u64,
    count: u64,
    safe: bool,
}

impl View for Scan {
    type V = ScanView;

    closed spec fn view(&self) -> ScanView {
        ScanView {
            mode: self.mode,
            outer: self.outer@,
            weight: self.weight,
            lower: self.lower,
            count: self.count,
            safe: self.safe,
        }
    }
}

impl Scan {
    fn new() -> (scan: Scan)
        ensures
            scan@ == ScanView::start(),
            scan@.sound(),
    {
        Scan { mode: Mode::Plain, outer: Vec::new(), weight: 0, lower: 0, count: 0, safe: true }
    }

    fn leaf(&mut self, mode: Mode)
        requires
            old(self)@.sound(),
        ensures
            final(self)@ == old(self)@.leaf(mode),
            final(self)@.sound(),
    {
        if self.weight < MAX_WEIGHT {
            self.weight = self.weight + 1;
            self.mode = mode;
        } else {
            self.safe = false;
        }
    }

    fn open(&mut self)
        requires
            old(self)@.sound(),
        ensures
            final(self)@ == old(self)@.opened(),
            final(self)@.sound(),
    {
        if self.outer.len() < MAX_DEPTH {
            self.outer.push(self.weight);
            self.weight = 0;
            self.mode = Mode::Plain;
        } else {
            self.safe = false;
        }
    }

    fn close(&mut self, times: u64)
        requires
            old(self)@.sound(),
            times <= MAX_COUNT,
        ensures
            final(self)@ == old(self)@.closed(times),
            final(self)@.sound(),
    {
        let depth: usize = self.outer.len();
        if depth == 0 {
            self.mode = Mode::Plain;
            return ;
        }
        let factor: u64 = if times == 0 {
            1
        } else {
            times
        };
        assert(self.weight * factor <= MAX_WEIGHT * MAX_COUNT) by (nonlinear_arith)
            requires
                self.weight <= MAX_WEIGHT,
                factor <= MAX_COUNT,
        ;
        let total: u64 = self.outer[depth - 1] + self.weight * factor;
        if total <= MAX_WEIGHT {
            let ghost before = self.outer@;
            self.outer.pop();
            assert(self.outer@ =~= before.drop_last());
            self.weight = total;
            self.mode = Mode::Plain;
        } else {
            self.safe = false;
        }
    }

    fn digit(&mut self, c: char)
        requires
            old(self)@.sound(),
            is_digit(c),
        ensures
            final(self)@ == old(self)@.digit(c),
            final(self)@.sound(),
    {
        let value: u64 = self.count * 10 + ((c as u64) - ('0' as u64));
        if value <= MAX_COUNT {
            self.count = value;
        } else {
            self.safe = false;
        }
    }

    fn step(&mut self, c: char)
        requires
            old(self)@.sound(),
        ensures
            final(self)@ == old(self)@.step(c),
            final(self)@.sound(),
    {
        if !self.safe {
            return ;
        }
        match self.mode {
            Mode::Plain => {
                if c == '\\' {
                    self.mode = Mode::Escaped;
                } else if c == '[' {
                    self.leaf(Mode::Class);
                } else if c == '(' {
                    self.mode = Mode::Flags;
                } else if c == '{' || c == '<' {
                    self.open();
                } else if c == '}' || c == '>' {
                    self.close(1);
                } else if c == ':' {
                    self.mode = Mode::Lower;
                    self.lower = 0;
                    self.count = 0;
                } else if c == ',' || c == ')' {
                } else {
                    self.leaf(Mode::Plain);
                }
            },
            Mode::Escaped => {
                self.leaf(Mode::Plain);
            },
            Mode::Class => {
                if c == '\\' {
                    self.mode = Mode::ClassEscaped;
                } else if c == ']' {
                    self.mode = Mode::Plain;
                }
            },
            Mode::ClassEscaped => {
                self.mode = Mode::Class;
            },
            Mode::Flags => {
                if c == ')' {
                    self.mode = Mode::Plain;
                }
            },
            Mode::Lower => {
                if '0' <= c && c <= '9' {
                    self.digit(c);
                } else if c == ',' {
                    self.mode = Mode::Upper;
                    self.lower = self.count;
                    self.count = 0;
                } else if c == '>' {
                    let times = self.count;
                    self.close(times);
                } else {
                    self.mode = Mode::Plain;
                }
            },
            Mode::Upper => {
                if '0' <= c && c <= '9' {
                    self.digit(c);
                } else if c == '>' {
                    let times = self.lower;
                    self.close(times);
                } else {
                    self.mode = Mode::Plain;
                }
            },
        }
    }
}

/// Whether a pattern is tried.
pub fn glob_safe(pattern: &str) -> (safe: bool)
    ensures
        safe == spec_glob_safe(pattern@),
{
    let chars = chars_of(pattern);
    let n: usize = chars.len();
    let mut scan = Scan::new();
    let mut i: usize = 0;
    assert(chars@.subrange(0, 0) =~= Seq::<char>::empty());
    while i < n
        invariant
            i <= n,
            n == chars.len(),
            chars@ == pattern@,
            scan@ == spec_scan(chars@.subrange(0, i as int)),
            scan@.sound(),
        decreases n - i,
    {
        assert(chars@.subrange(0, i + 1).drop_last() =~= chars@.subrange(0, i as int));
        scan.step(chars[i]);
        i = i + 1;
    }
    assert(chars@.subrange(0, n as int) =~= chars@);
    scan.safe
}

} // verus!
