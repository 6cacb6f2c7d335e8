use vstd::prelude::*;

verus! {

/// Number of addressable keys on the keyboard surface.
pub const KEY_COUNT: usize = 90;

/// Number of key rows.
pub const ROW_COUNT: usize = 6;

/// Number of key columns.
pub const COL_COUNT: usize = 15;

/// The colour of one key.
#[derive(Clone, Copy, Debug, PartialEq, Eq, Structural)]
pub struct KeyColour {
    pub red: u8,
    pub green: u8,
    pub blue: u8,
}

impl KeyColour {
    pub fn new(red: u8, green: u8, blue: u8) -> (r: KeyColour)
        ensures
            r == (KeyColour { red, green, blue }),
    {
        KeyColour { red, green, blue }
    }
}

/// The row that key `i` lies in (keys are laid out row after row).
pub open spec fn row_of(i: int) -> int {
    i / COL_COUNT as int
}

/// The column that key `i` lies in.
pub open spec fn col_of(i: int) -> int {
    i % COL_COUNT as int
}

/// A full frame: one colour for each of the keys.
#[derive(Clone, Copy, Debug, PartialEq, Eq)]
pub struct KeyboardData {
    pub keys: [KeyColour; 90],
}

impl View for KeyboardData {
    type V = Seq<KeyColour>;

    open spec fn view(&self) -> Seq<KeyColour> {
        self.keys@
    }
}

/// Every key of `s` has colour `c`.
pub open spec fn all_keys(s: Seq<KeyColour>, c: KeyColour) -> bool {
    forall|i: int| 0 <= i < KEY_COUNT ==> s[i] == c
}

impl KeyboardData {
    /// A frame with every key off.
    pub fn new() -> (r: KeyboardData)
        ensures
            r@.len() == KEY_COUNT,
            all_keys(r@, KeyColour { red: 0, green: 0, blue: 0 }),
    {
        let off = KeyColour { red: 0, green: 0, blue: 0 };
        KeyboardData { keys: [off; 90] }
    }

    pub fn get_key_at(&self, index: usize) -> (r: KeyColour)
        requires
            index < KEY_COUNT,
        ensures
            r == self@[index as int],
    {
        self.keys[index]
    }

    pub fn set_key_at(&mut self, index: usize, colour: KeyColour)
        requires
            index < KEY_COUNT,
        ensures
            final(self)@ == old(self)@.update(index as int, colour),
    {
        self.keys[index] = colour;
    }

    /// Sets every key to one colour.
    pub fn set_kbd_colour(&mut self, red: u8, green: u8, blue: u8)
        ensures
            final(self)@.len() == KEY_COUNT,
            all_keys(final(self)@, KeyColour { red, green, blue }),
    {
        let c = KeyColour { red, green, blue };
        let mut i: usize = 0;
        while i < KEY_COUNT
            invariant
                i <= KEY_COUNT,
                self@.len() == KEY_COUNT,
                forall|j: int| 0 <= j < i ==> self@[j] == c,
            decreases KEY_COUNT - i,
        {
            self.keys[i] = c;
            i = i + 1;
        }
    }

    /// Sets every key of one row to one colour; the other keys keep theirs.
    pub fn set_row_colour(&mut self, row: usize, red: u8, green: u8, blue: u8)
        requires
            row < ROW_COUNT,
        ensures
            final(self)@.len() == KEY_COUNT,
            forall|i: int|
                #![trigger final(self)@[i]]
                0 <= i < KEY_COUNT ==> final(self)@[i] == if row_of(i) == row {
                    KeyColour { red, green, blue }
                } else {
                    old(self)@[i]
                },
    {
        let c = KeyColour { red, green, blue };
        let start: usize = row * COL_COUNT;
        let mut j: usize = 0;
        while j < COL_COUNT
            invariant
                j <= COL_COUNT,
                row < ROW_COUNT,
                start == row * COL_COUNT,
                self@.len() == KEY_COUNT,
                forall|i: int|
                    #![trigger self@[i]]
                    0 <= i < KEY_COUNT ==> self@[i] == if row_of(i) == row && col_of(i) < j {
                        c
                    } else {
                        old(self)@[i]
                    },
            decreases COL_COUNT - j,
        {
            self.keys[start + j] = c;
            proof {
                assert(row_of((start + j) as int) == row && col_of((start + j) as int) == j)
                    by (nonlinear_arith)
                    requires
                        start == row * 15,
                        j < 15,
                ;
            }
            j = j + 1;
        }
    }

    /// Sets every key of one column to one colour; the other keys keep theirs.
    pub fn set_col_colour(&mut self, col: usize, red: u8, green: u8, blue: u8)
        requires
            col < COL_COUNT,
        ensures
            final(self)@.len() == KEY_COUNT,
            forall|i: int|
                #![trigger final(self)@[i]]
                0 <= i < KEY_COUNT ==> final(self)@[i] == if col_of(i) == col {
                    KeyColour { red, green, blue }
                } else {
                    old(self)@[i]
                },
    {
        let c = KeyColour { red, green, blue };
        let mut r: usize = 0;
        while r < ROW_COUNT
            invariant
                r <= ROW_COUNT,
                col < COL_COUNT,
                self@.len() == KEY_COUNT,
                forall|i: int|
                    #![trigger self@[i]]
                    0 <= i < KEY_COUNT ==> self@[i] == if col_of(i) == col && row_of(i) < r {
                        c
                    } else {
                        old(self)@[i]
                    },
            decreases ROW_COUNT - r,
        {
            self.keys[r * COL_COUNT + col] = c;
            proof {
                assert(row_of((r * 15 + col) as int) == r && col_of((r * 15 + col) as int) == col)
                    by (nonlinear_arith)
                    requires
                        r < 6,
                        col < 15,
                ;
            }
            r = r + 1;
        }
    }
}

} // verus!
