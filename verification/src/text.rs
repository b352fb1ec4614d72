use vstd::prelude::*;

verus! {

/// A run of `n` blanks.
pub open spec fn spec_spaces(n: nat) -> Seq<char> {
    Seq::new(n, |i: int| ' ')
}

/// The decimal digit for a value below ten.
pub open spec fn spec_digit(d: nat) -> char {
    if d == 0 {
        '0'
    } else if d == 1 {
        '1'
    } else if d == 2 {
        '2'
    } else if d == 3 {
        '3'
    } else if d == 4 {
        '4'
    } else if d == 5 {
        '5'
    } else if d == 6 {
        '6'
    } else if d == 7 {
        '7'
    } else if d == 8 {
        '8'
    } else {
        '9'
    }
}

/// A number written in decimal, without leading zeros.
pub open spec fn spec_decimal(n: nat) -> Seq<char>
    decreases n,
{
    if n < 10 {
        seq![spec_digit(n)]
    } else {
        spec_decimal(n / 10).push(spec_digit(n % 10))
    }
}

/// `text`, followed by as many blanks as it lacks to `width` characters.
pub open spec fn spec_pad_right(text: Seq<char>, width: nat) -> Seq<char> {
    if text.len() < width {
        text + spec_spaces((width - text.len()) as nat)
    } else {
        text
    }
}

fn digit(d: usize) -> (s: &'static str)
    requires
        d < 10,
    ensures
        s@ == seq![spec_digit(d as nat)],
{
    proof {
        reveal_strlit("0");
        reveal_strlit("1");
        reveal_strlit("2");
        reveal_strlit("3");
        reveal_strlit("4");
        reveal_strlit("5");
        reveal_strlit("6");
        reveal_strlit("7");
        reveal_strlit("8");
        reveal_strlit("9");
    }
    let s = if d == 0 {
        "0"
    } else if d == 1 {
        "1"
    } else if d == 2 {
        "2"
    } else if d == 3 {
        "3"
    } else if d == 4 {
        "4"
    } else if d == 5 {
        "5"
    } else if d == 6 {
        "6"
    } else if d == 7 {
        "7"
    } else if d == 8 {
        "8"
    } else {
        "9"
    };
    assert(s@ =~= seq![spec_digit(d as nat)]);
    s
}

/// Writes a number in decimal.
pub fn decimal(n: usize) -> (s: String)
    ensures
        s@ == spec_decimal(n as nat),
    decreases n,
{
    if n < 10 {
        String::from_str(digit(n))
    } else {
        let mut s = decimal(n / 10);
        let d = digit(n % 10);
        s.append(d);
        assert(s@ =~= spec_decimal(n as nat));
        s
    }
}

/// Makes a run of `n` blanks.
pub fn spaces(n: usize) -> (s: String)
    ensures
        s@ == spec_spaces(n as nat),
{
    let mut s = String::new();
    let mut i: usize = 0;
    while i < n
        invariant
            i <= n,
            s@ == spec_spaces(i as nat),
        decreases n - i,
    {
        proof {
            reveal_strlit(" ");
        }
        s.append(" ");
        i += 1;
        assert(s@ =~= spec_spaces(i as nat));
    }
    s
}

/// Pads `text` with blanks on the right up to `width` characters; longer text
/// is returned whole.
pub fn pad_right(text: &str, width: usize) -> (s: String)
    ensures
        s@ == spec_pad_right(text@, width as nat),
{
    let len = text.unicode_len();
    let mut s = String::from_str(text);
    if len < width {
        let fill = spaces(width - len);
        s.append(fill.as_str());
    }
    s
}

/// Appends `tail` to `head`.
pub fn join(head: &str, tail: &str) -> (s: String)
    ensures
        s@ == head@ + tail@,
{
    let mut s = String::from_str(head);
    s.append(tail);
    s
}

/// The characters of each string of a list.
pub open spec fn spec_strings(list: Seq<String>) -> Seq<Seq<char>> {
    list.map_values(|s: String| s@)
}

/// Appending a string to a list appends its characters to the list's view.
pub proof fn lemma_strings_push(list: Seq<String>, s: String)
    ensures
        spec_strings(list.push(s)) == spec_strings(list).push(s@),
{
    assert(spec_strings(list.push(s)) =~= spec_strings(list).push(s@));
}

/// The control sequence that clears the line the cursor is on.
pub open spec fn spec_clear_line() -> Seq<char> {
    seq!['\x1B', '[', '2', 'K']
}

/// Makes the control sequence that clears the line.
pub fn clear_line() -> (s: String)
    ensures
        s@ == spec_clear_line(),
{
    proof {
        reveal_strlit("\x1B[2K");
    }
    let s = String::from_str("\x1B[2K");
    assert(s@ =~= spec_clear_line());
    s
}

/// The index of the first `c` in `text`, or the length of `text` where it
/// holds none.
pub open spec fn spec_index_of(text: Seq<char>, c: char) -> int
    decreases text.len(),
{
    if text.len() == 0 {
        0
    } else if text[0] == c {
        0
    } else {
        1 + spec_index_of(text.skip(1), c)
    }
}

/// The first `c` stands where no `c` stands before and `c` stands, or the
/// text ends.
pub proof fn lemma_index_of(text: Seq<char>, c: char, i: int)
    requires
        0 <= i <= text.len(),
        forall|j: int| 0 <= j < i ==> text[j] != c,
        i == text.len() || text[i] == c,
    ensures
        spec_index_of(text, c) == i,
    decreases text.len(),
{
    if text.len() == 0 {
    } else if text[0] == c {
    } else {
        let rest = text.skip(1);
        assert forall|j: int| 0 <= j < i - 1 implies rest[j] != c by {
            assert(rest[j] == text[j + 1]);
        }
        lemma_index_of(rest, c, i - 1);
    }
}

/// Finds the first `c` in `text`; returns the length of `text` where it
/// holds none.
pub fn index_of(text: &str, c: char) -> (i: usize)
    ensures
        i == spec_index_of(text@, c),
        i <= text@.len(),
{
    let len = text.unicode_len();
    let mut i: usize = 0;
    while i < len && text.get_char(i) != c
        invariant
            i <= len,
            len == text@.len(),
            forall|j: int| 0 <= j < i ==> text@[j] != c,
        decreases len - i,
    {
        i += 1;
    }
    proof {
        lemma_index_of(text@, c, i as int);
    }
    i
}

/// A line without the carriage return that ends it, if one does.
pub open spec fn spec_strip_cr(line: Seq<char>) -> Seq<char> {
    if line.len() > 0 && line.last() == '\r' {
        line.drop_last()
    } else {
        line
    }
}

/// The lines of a text. A line ends at a line feed; the line feed, and a
/// carriage return just before it, are not part of the line. What follows
/// the last line feed is a line too, unless it is empty.
pub open spec fn spec_lines(text: Seq<char>) -> Seq<Seq<char>>
    decreases text.len(),
{
    let i = spec_index_of(text, '\n');
    if text.len() == 0 {
        Seq::empty()
    } else if i < 0 || i >= text.len() {
        seq![text]
    } else {
        seq![spec_strip_cr(text.take(i))] + spec_lines(text.skip(i + 1))
    }
}

/// Splits a text into its lines with `str::lines`, which is believed to
/// return what `spec_lines` describes: the pieces between line feeds,
/// without the line feed and without a carriage return just before it, and
/// the rest after the last line feed where it is not empty.
#[verifier::external_body]
pub(crate) fn lines(text: &str) -> (list: Vec<String>)
    ensures
        spec_strings(list@) == spec_lines(text@),
{
    let mut list: Vec<String> = Vec::new();
    for line in text.lines() {
        list.push(line.to_string());
    }
    list
}

} // verus!
