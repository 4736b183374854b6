//! A terminal, as far as panes rely on one: cells, a cursor, and the sequences that
//! frames are made of.
use crate::bytes::decimal;
use vstd::prelude::*;

verus! {

/// How far the terminal has read a sequence.
pub enum Parsing {
    /// No sequence is being read.
    Ground,
    /// The escape byte was read.
    Escape,
    /// `ESC [` was read, and after it the numbers `before` and the digits of `number`.
    Sequence { private: bool, before: Seq<int>, number: int },
}

/// A terminal.
#[verifier::ext_equal]
pub struct Terminal {
    /// The number of columns.
    pub width: int,
    /// The number of rows.
    pub height: int,
    /// What each cell of each row shows.
    pub cells: Seq<Seq<u8>>,
    /// The row of the cursor.
    pub row: int,
    /// The column of the cursor; the width itself once the last column was written.
    pub col: int,
    /// The row that the cursor was saved in.
    pub saved_row: int,
    /// The column that the cursor was saved in.
    pub saved_col: int,
    /// The cursor is shown.
    pub visible: bool,
    /// The first row that scrolls.
    pub top: int,
    /// The row below the last that scrolls.
    pub bottom: int,
    /// How far a sequence has been read.
    pub parsing: Parsing,
}

/// The coordinate that a number of a positioning sequence names, counted from zero and
/// held inside the terminal.
pub open spec fn coordinate(number: int, extent: int) -> int {
    if number <= 1 {
        0
    } else if number > extent {
        extent - 1
    } else {
        number - 1
    }
}

/// The number at a place of a sequence, zero where there is none.
pub open spec fn number_at(numbers: Seq<int>, place: int) -> int {
    if 0 <= place < numbers.len() {
        numbers[place]
    } else {
        0
    }
}

impl Terminal {
    /// The cells fill the terminal, and the cursor and the scrolling rows lie in it.
    pub open spec fn sound(self) -> bool {
        &&& 0 < self.width
        &&& 0 < self.height
        &&& self.cells.len() == self.height
        &&& forall|row: int| 0 <= row < self.height ==> (#[trigger] self.cells[row]).len() == self.width
        &&& 0 <= self.row < self.height
        &&& 0 <= self.col <= self.width
        &&& 0 <= self.saved_row < self.height
        &&& 0 <= self.saved_col <= self.width
        &&& 0 <= self.top < self.bottom <= self.height
    }

    /// The terminal is between sequences, and all of its rows scroll.
    pub open spec fn ready(self) -> bool {
        &&& self.sound()
        &&& self.parsing is Ground
        &&& self.top == 0
        &&& self.bottom == self.height
    }

    /// The terminal with the cursor in another cell.
    pub open spec fn moved(self, row: int, col: int) -> Terminal {
        Terminal { row, col, ..self }
    }

    /// The terminal with a character written at the cursor.
    pub open spec fn put(self, byte: u8) -> Terminal {
        if self.col < self.width {
            Terminal {
                cells: self.cells.update(self.row, self.cells[self.row].update(self.col, byte)),
                col: self.col + 1,
                ..self
            }
        } else {
            self
        }
    }

    /// The terminal with the cells from the cursor to the end of the row cleared.
    pub open spec fn cleared_rest(self) -> Terminal {
        Terminal {
            cells: self.cells.update(
                self.row,
                Seq::new(
                    self.width as nat,
                    |col: int|
                        if col < self.col {
                            self.cells[self.row][col]
                        } else {
                            0x20u8
                        },
                ),
            ),
            ..self
        }
    }

    /// The terminal with the rows that scroll moved up, blank rows coming in.
    pub open spec fn scrolled(self, count: int) -> Terminal {
        Terminal {
            cells: Seq::new(
                self.height as nat,
                |row: int|
                    if self.top <= row < self.bottom {
                        if row + count < self.bottom {
                            self.cells[row + count]
                        } else {
                            Seq::new(self.width as nat, |col: int| 0x20u8)
                        }
                    } else {
                        self.cells[row]
                    },
            ),
            ..self
        }
    }

    /// The terminal after a line feed.
    pub open spec fn fed_line(self) -> Terminal {
        if self.row + 1 == self.bottom {
            self.scrolled(1)
        } else if self.row + 1 < self.height {
            Terminal { row: self.row + 1, ..self }
        } else {
            self
        }
    }

    /// The terminal after a whole sequence.
    pub open spec fn performed(self, private: bool, numbers: Seq<int>, last: u8) -> Terminal {
        let first = number_at(numbers, 0);
        let second = number_at(numbers, 1);
        if private {
            if first == 25 && last == 0x68 {
                Terminal { visible: true, ..self }
            } else if first == 25 && last == 0x6c {
                Terminal { visible: false, ..self }
            } else {
                self
            }
        } else if last == 0x48 {
            self.moved(coordinate(first, self.height), coordinate(second, self.width))
        } else if last == 0x4b && first == 0 {
            self.cleared_rest()
        } else if last == 0x53 {
            self.scrolled(first)
        } else if last == 0x73 {
            Terminal { saved_row: self.row, saved_col: self.col, ..self }
        } else if last == 0x75 {
            self.moved(self.saved_row, self.saved_col)
        } else if last == 0x72 {
            Terminal {
                top: if first <= 1 { 0 } else { first - 1 },
                bottom: if second == 0 { self.height } else { second },
                row: 0,
                col: 0,
                ..self
            }
        } else {
            self
        }
    }

    /// The terminal after one more byte.
    pub open spec fn fed(self, byte: u8) -> Terminal {
        match self.parsing {
            Parsing::Ground => if byte == 0x1b {
                Terminal { parsing: Parsing::Escape, ..self }
            } else if byte == 0x0d {
                Terminal { col: 0, ..self }
            } else if byte == 0x0a {
                self.fed_line()
            } else if 0x20 <= byte <= 0x7e {
                self.put(byte)
            } else {
                self
            },
            Parsing::Escape => if byte == 0x5b {
                Terminal {
                    parsing: Parsing::Sequence { private: false, before: Seq::empty(), number: 0 },
                    ..self
                }
            } else {
                Terminal { parsing: Parsing::Ground, ..self }
            },
            Parsing::Sequence { private, before, number } => if byte == 0x3f {
                Terminal {
                    parsing: Parsing::Sequence { private: true, before, number },
                    ..self
                }
            } else if byte == 0x3b {
                Terminal {
                    parsing: Parsing::Sequence { private, before: before.push(number), number: 0 },
                    ..self
                }
            } else if 0x30 <= byte <= 0x39 {
                Terminal {
                    parsing: Parsing::Sequence {
                        private,
                        before,
                        number: 10 * number + (byte - 0x30),
                    },
                    ..self
                }
            } else {
                Terminal { parsing: Parsing::Ground, ..self }.performed(
                    private,
                    before.push(number),
                    byte,
                )
            },
        }
    }

    /// The terminal after `bytes` were written to it.
    pub open spec fn after(self, bytes: Seq<u8>) -> Terminal
        decreases bytes.len(),
    {
        if bytes.len() == 0 {
            self
        } else {
            self.after(bytes.drop_last()).fed(bytes.last())
        }
    }
}

/// One more byte is read after the others.
pub proof fn after_push(terminal: Terminal, bytes: Seq<u8>, byte: u8)
    ensures
        terminal.after(bytes.push(byte)) == terminal.after(bytes).fed(byte),
{
    assert(bytes.push(byte).drop_last() =~= bytes);
}

/// Bytes written in two parts have the effect of all of them.
pub proof fn after_both(terminal: Terminal, first: Seq<u8>, second: Seq<u8>)
    ensures
        terminal.after(first + second) == terminal.after(first).after(second),
    decreases second.len(),
{
    if second.len() == 0 {
        assert(first + second =~= first);
    } else {
        after_both(terminal, first, second.drop_last());
        assert((first + second).drop_last() =~= first + second.drop_last());
    }
}

/// Writing nothing has no effect.
pub proof fn after_nothing(terminal: Terminal)
    ensures
        terminal.after(Seq::empty()) == terminal,
{
}

/// Three bytes are read one after the other.
proof fn after_three(terminal: Terminal, a: u8, b: u8, c: u8)
    ensures
        terminal.after(seq![a, b, c]) == terminal.fed(a).fed(b).fed(c),
        terminal.after(seq![a, b]) == terminal.fed(a).fed(b),
        terminal.after(seq![a]) == terminal.fed(a),
{
    after_nothing(terminal);
    after_push(terminal, Seq::empty(), a);
    after_push(terminal, seq![a], b);
    after_push(terminal, seq![a, b], c);
    assert(seq![a] =~= Seq::empty().push(a));
    assert(seq![a, b] =~= seq![a].push(b));
    assert(seq![a, b, c] =~= seq![a, b].push(c));
}

/// The sequences without a place in them, on a terminal between sequences.
pub proof fn fixed_sequences(terminal: Terminal)
    requires
        terminal.parsing is Ground,
    ensures
        terminal.after(seq![0x1bu8, 0x5b, 0x73]) == (Terminal {
            saved_row: terminal.row,
            saved_col: terminal.col,
            ..terminal
        }),
        terminal.after(seq![0x1bu8, 0x5b, 0x75]) == terminal.moved(
            terminal.saved_row,
            terminal.saved_col,
        ),
        terminal.after(seq![0x1bu8, 0x5b, 0x4b]) == terminal.cleared_rest(),
        terminal.after(seq![0x1bu8, 0x5b, 0x30, 0x6d]) == terminal,
        terminal.after(seq![0x1bu8, 0x5b, 0x72]) == (Terminal {
            top: 0,
            bottom: terminal.height,
            row: 0,
            col: 0,
            ..terminal
        }),
        terminal.after(seq![0x1bu8, 0x5b, 0x3f, 0x32, 0x35, 0x68]) == (Terminal {
            visible: true,
            ..terminal
        }),
        terminal.after(seq![0x1bu8, 0x5b, 0x3f, 0x32, 0x35, 0x6c]) == (Terminal {
            visible: false,
            ..terminal
        }),
        terminal.after(seq![0x0du8, 0x0a]) == (Terminal { col: 0, ..terminal }).fed_line(),
{
    after_three(terminal, 0x1b, 0x5b, 0x73);
    after_three(terminal, 0x1b, 0x5b, 0x75);
    after_three(terminal, 0x1b, 0x5b, 0x4b);
    after_three(terminal, 0x1b, 0x5b, 0x30);
    after_push(terminal, seq![0x1bu8, 0x5b, 0x30], 0x6d);
    assert(seq![0x1bu8, 0x5b, 0x30, 0x6d] =~= seq![0x1bu8, 0x5b, 0x30].push(0x6d));
    after_three(terminal, 0x1b, 0x5b, 0x72);
    after_three(terminal, 0x1b, 0x5b, 0x3f);
    after_push(terminal, seq![0x1bu8, 0x5b, 0x3f], 0x32);
    assert(seq![0x1bu8, 0x5b, 0x3f, 0x32] =~= seq![0x1bu8, 0x5b, 0x3f].push(0x32));
    after_push(terminal, seq![0x1bu8, 0x5b, 0x3f, 0x32], 0x35);
    assert(seq![0x1bu8, 0x5b, 0x3f, 0x32, 0x35] =~= seq![0x1bu8, 0x5b, 0x3f, 0x32].push(0x35));
    after_push(terminal, seq![0x1bu8, 0x5b, 0x3f, 0x32, 0x35], 0x68);
    assert(seq![0x1bu8, 0x5b, 0x3f, 0x32, 0x35, 0x68] =~= seq![0x1bu8, 0x5b, 0x3f, 0x32, 0x35].push(0x68));
    after_push(terminal, seq![0x1bu8, 0x5b, 0x3f, 0x32, 0x35], 0x6c);
    assert(seq![0x1bu8, 0x5b, 0x3f, 0x32, 0x35, 0x6c] =~= seq![0x1bu8, 0x5b, 0x3f, 0x32, 0x35].push(0x6c));
    after_three(terminal, 0x0d, 0x0a, 0x0a);
}

/// The digits of a number are read as that number.
pub proof fn digits_are_read(terminal: Terminal, value: nat)
    requires
        terminal.parsing is Sequence,
        terminal.parsing->number == 0,
    ensures
        terminal.after(decimal(value)) == (Terminal {
            parsing: Parsing::Sequence {
                private: terminal.parsing->private,
                before: terminal.parsing->before,
                number: value as int,
            },
            ..terminal
        }),
    decreases value,
{
    if value < 10 {
        after_three(terminal, crate::bytes::digit(value), 0, 0);
    } else {
        digits_are_read(terminal, value / 10);
        after_push(terminal, decimal(value / 10), crate::bytes::digit(value % 10));
    }
}

/// `ESC [ first ; second` and a letter performs the letter on both numbers.
pub proof fn two_numbers_are_read(terminal: Terminal, first: nat, second: nat, last: u8)
    requires
        terminal.parsing is Ground,
        last > 0x3f,
    ensures
        terminal.after(
            seq![0x1bu8, 0x5b] + decimal(first) + seq![0x3bu8] + decimal(second) + seq![last],
        ) == terminal.performed(false, seq![first as int, second as int], last),
{
    let start = seq![0x1bu8, 0x5b];
    let started = terminal.after(start);
    after_three(terminal, 0x1b, 0x5b, 0);
    after_both(terminal, start, decimal(first));
    digits_are_read(started, first);
    let one = terminal.after(start + decimal(first));
    after_both(terminal, start + decimal(first), seq![0x3bu8]);
    after_three(one, 0x3b, 0, 0);
    let separated = terminal.after(start + decimal(first) + seq![0x3bu8]);
    after_both(terminal, start + decimal(first) + seq![0x3bu8], decimal(second));
    digits_are_read(separated, second);
    let two = terminal.after(start + decimal(first) + seq![0x3bu8] + decimal(second));
    after_both(terminal, start + decimal(first) + seq![0x3bu8] + decimal(second), seq![last]);
    after_three(two, last, 0, 0);
    assert(two.parsing->before.push(second as int) =~= seq![first as int, second as int]);
    assert(Terminal { parsing: Parsing::Ground, ..two } == terminal);
}

/// `ESC [ number` and a letter performs the letter on the number.
pub proof fn one_number_is_read(terminal: Terminal, number: nat, last: u8)
    requires
        terminal.parsing is Ground,
        last > 0x3f,
    ensures
        terminal.after(seq![0x1bu8, 0x5b] + decimal(number) + seq![last]) == terminal.performed(
            false,
            seq![number as int],
            last,
        ),
{
    let start = seq![0x1bu8, 0x5b];
    let started = terminal.after(start);
    after_three(terminal, 0x1b, 0x5b, 0);
    after_both(terminal, start, decimal(number));
    digits_are_read(started, number);
    let one = terminal.after(start + decimal(number));
    after_both(terminal, start + decimal(number), seq![last]);
    after_three(one, last, 0, 0);
    assert(one.parsing->before.push(number as int) =~= seq![number as int]);
    assert(Terminal { parsing: Parsing::Ground, ..one } == terminal);
}

/// A row of cells with text written over it from a column on.
pub open spec fn written_over(cells: Seq<u8>, col: int, text: Seq<u8>) -> Seq<u8> {
    Seq::new(
        cells.len(),
        |i: int|
            if col <= i < col + text.len() {
                text[i - col]
            } else {
                cells[i]
            },
    )
}

/// Text that fits in the row is written over it.
pub proof fn text_is_written(terminal: Terminal, text: Seq<u8>)
    requires
        terminal.parsing is Ground,
        terminal.sound(),
        terminal.col + text.len() <= terminal.width,
        forall|i: int| 0 <= i < text.len() ==> 0x20 <= #[trigger] text[i] <= 0x7e,
    ensures
        terminal.after(text) == (Terminal {
            cells: terminal.cells.update(
                terminal.row,
                written_over(terminal.cells[terminal.row], terminal.col, text),
            ),
            col: terminal.col + text.len(),
            ..terminal
        }),
    decreases text.len(),
{
    let row = terminal.cells[terminal.row];
    if text.len() == 0 {
        assert(written_over(row, terminal.col, text) =~= row);
        assert(terminal.cells.update(terminal.row, row) =~= terminal.cells);
    } else {
        let shorter = text.drop_last();
        assert forall|i: int| 0 <= i < shorter.len() implies 0x20 <= #[trigger] shorter[i]
            <= 0x7e by {
            assert(shorter[i] == text[i]);
        }
        text_is_written(terminal, shorter);
        let before = terminal.after(shorter);
        assert(0x20 <= text[text.len() - 1] <= 0x7e);
        assert(before.cells[terminal.row] == written_over(row, terminal.col, shorter));
        assert(before.cells[terminal.row].update(before.col, text.last()) =~= written_over(
            row,
            terminal.col,
            text,
        ));
        assert(before.cells.update(terminal.row, written_over(row, terminal.col, text))
            =~= terminal.cells.update(terminal.row, written_over(row, terminal.col, text)));
    }
}

} // verus!
