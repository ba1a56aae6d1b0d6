//! The line structure of a text: how many lines it has, where each starts and
//! how long it is. A text is a sequence of characters; a newline ends a line
//! and begins the next, so a text with `n` newlines has `n + 1` lines, the
//! last of which may be empty.
use vstd::prelude::*;
use vstd::string::StringSliceAdditionalSpecFns;

verus! {

/// The character that separates two lines.
pub const NEWLINE: char = '\n';

/// How many newlines a text holds.
pub open spec fn newlines(t: Seq<char>) -> nat
    decreases t.len(),
{
    if t.len() == 0 {
        0
    } else {
        newlines(t.drop_last()) + if t.last() == NEWLINE { 1nat } else { 0nat }
    }
}

/// How many characters follow the last newline of a text: the length of its
/// last line.
pub open spec fn tail_len(t: Seq<char>) -> nat
    decreases t.len(),
{
    if t.len() == 0 || t.last() == NEWLINE {
        0
    } else {
        tail_len(t.drop_last()) + 1
    }
}

/// How many lines a text has. The empty text has one, which is empty.
pub open spec fn line_count(t: Seq<char>) -> nat {
    newlines(t) + 1
}

/// The length of line `row`, its newline not counted; 0 where the text has no
/// such line. The last line is what follows the last newline, and an earlier
/// line is the same line of the text without its last character.
pub open spec fn line_len(t: Seq<char>, row: nat) -> nat
    decreases t.len(),
{
    if t.len() == 0 || row > newlines(t) {
        0
    } else if row == newlines(t) {
        tail_len(t)
    } else {
        line_len(t.drop_last(), row)
    }
}

/// The index in the text of the first character of line `row`; the length of
/// the text where it has no such line.
pub open spec fn line_start(t: Seq<char>, row: nat) -> int
    decreases t.len(),
{
    if t.len() == 0 {
        0
    } else if row > newlines(t) {
        t.len() as int
    } else if row == newlines(t) {
        t.len() - tail_len(t)
    } else {
        line_start(t.drop_last(), row)
    }
}

/// The column that an edit at `(col, row)` takes place at: `col`, or the end
/// of the line where `col` lies beyond it.
pub open spec fn clamped_col(t: Seq<char>, col: nat, row: nat) -> nat {
    if col <= line_len(t, row) { col } else { line_len(t, row) }
}

/// The index in the text that the position `(col, row)` stands for.
pub open spec fn offset(t: Seq<char>, col: nat, row: nat) -> int {
    line_start(t, row) + clamped_col(t, col, row)
}

/// Whether `(col, row)` is a position of the text: a line that it has, and a
/// column on that line or just behind it.
pub open spec fn in_bounds(t: Seq<char>, col: nat, row: nat) -> bool {
    row < line_count(t) && col <= line_len(t, row)
}

/// What one more character at the end does to the lines of a text.
pub proof fn lemma_push(u: Seq<char>, x: char, row: nat)
    ensures
        newlines(u.push(x)) == newlines(u) + if x == NEWLINE { 1nat } else { 0nat },
        tail_len(u.push(x)) == if x == NEWLINE { 0 } else { tail_len(u) + 1 },
        row < newlines(u.push(x)) ==> line_len(u.push(x), row) == line_len(u, row)
            && line_start(u.push(x), row) == line_start(u, row),
        row == newlines(u.push(x)) ==> line_len(u.push(x), row) == tail_len(u.push(x))
            && line_start(u.push(x), row) == u.len() + 1 - tail_len(u.push(x)),
        row > newlines(u.push(x)) ==> line_len(u.push(x), row) == 0 && line_start(
            u.push(x),
            row,
        ) == u.len() + 1,
{
    assert(u.push(x).drop_last() =~= u);
}

/// The line that a text ends in, and the lines that it does not have.
pub proof fn lemma_last_line(u: Seq<char>, row: nat)
    ensures
        row == newlines(u) ==> line_len(u, row) == tail_len(u) && line_start(u, row) == u.len()
            - tail_len(u),
        row > newlines(u) ==> line_len(u, row) == 0 && line_start(u, row) == u.len(),
{
}

/// A text holds no more newlines than characters.
pub proof fn lemma_newlines_bound(t: Seq<char>)
    ensures
        newlines(t) <= t.len(),
    decreases t.len(),
{
    if t.len() > 0 {
        lemma_newlines_bound(t.drop_last());
    }
}

/// The last line is never longer than the text.
pub proof fn lemma_tail_bound(t: Seq<char>)
    ensures
        tail_len(t) <= t.len(),
    decreases t.len(),
{
    if t.len() > 0 && t.last() != NEWLINE {
        lemma_tail_bound(t.drop_last());
    }
}

/// The newlines of two texts joined are those of both.
pub proof fn lemma_newlines_concat(a: Seq<char>, b: Seq<char>)
    ensures
        newlines(a + b) == newlines(a) + newlines(b),
    decreases b.len(),
{
    if b.len() == 0 {
        assert(a + b =~= a);
    } else {
        assert((a + b).drop_last() =~= a + b.drop_last());
        lemma_newlines_concat(a, b.drop_last());
    }
}

/// A line that ends inside `a` is the same line of `a + b`.
pub proof fn lemma_earlier_line(a: Seq<char>, b: Seq<char>, row: nat)
    requires
        row < newlines(a),
    ensures
        line_len(a + b, row) == line_len(a, row),
        line_start(a + b, row) == line_start(a, row),
    decreases b.len(),
{
    if b.len() == 0 {
        assert(a + b =~= a);
    } else {
        assert((a + b).drop_last() =~= a + b.drop_last());
        lemma_newlines_concat(a, b);
        lemma_newlines_concat(a, b.drop_last());
        lemma_earlier_line(a, b.drop_last(), row);
    }
}

/// The line of `a + b` that the seam lies in is the last line of `a` followed
/// by the first line of `b`.
pub proof fn lemma_seam_line(a: Seq<char>, b: Seq<char>)
    ensures
        line_len(a + b, newlines(a)) == tail_len(a) + line_len(b, 0),
        line_start(a + b, newlines(a)) == a.len() - tail_len(a),
    decreases b.len(),
{
    if b.len() == 0 {
        assert(a + b =~= a);
    } else {
        let u = a + b.drop_last();
        assert(a + b =~= u.push(b.last()));
        assert(b =~= b.drop_last().push(b.last()));
        lemma_newlines_concat(a, b.drop_last());
        lemma_seam_line(a, b.drop_last());
        lemma_push(u, b.last(), newlines(a));
        lemma_push(b.drop_last(), b.last(), 0);
        lemma_last_line(u, newlines(a));
        lemma_last_line(b.drop_last(), 0);
    }
}

/// The last `k` characters of a last line hold no newline, and without them
/// the last line is `k` shorter.
pub proof fn lemma_within_last_line(t: Seq<char>, k: nat)
    requires
        k <= tail_len(t),
    ensures
        k <= t.len(),
        newlines(t.take(t.len() - k)) == newlines(t),
        tail_len(t.take(t.len() - k)) == tail_len(t) - k,
        newlines(t.skip(t.len() - k)) == 0,
        line_len(t.skip(t.len() - k), 0) == k,
    decreases k,
{
    lemma_tail_bound(t);
    if k == 0 {
        assert(t.take(t.len() as int) =~= t);
    } else {
        let u = t.drop_last();
        lemma_within_last_line(u, (k - 1) as nat);
        assert(t.take(t.len() - k) =~= u.take(u.len() - (k - 1)));
        let s = t.skip(t.len() - k);
        assert(s.drop_last() =~= u.skip(u.len() - (k - 1)));
        assert(s.last() == t.last());
    }
}

/// A column `c` of line `row` splits the text in two: before it lie `row`
/// newlines and then `c` characters, behind it the rest of the line.
pub proof fn lemma_split_at(t: Seq<char>, row: nat, c: nat)
    requires
        row <= newlines(t),
        c <= line_len(t, row),
    ensures
        0 <= line_start(t, row) + c <= t.len(),
        newlines(t.take(line_start(t, row) + c)) == row,
        tail_len(t.take(line_start(t, row) + c)) == c,
        line_len(t.skip(line_start(t, row) + c), 0) == line_len(t, row) - c,
    decreases t.len(),
{
    let p = line_start(t, row) + c;
    if t.len() == 0 {
    } else if row == newlines(t) {
        lemma_within_last_line(t, (tail_len(t) - c) as nat);
    } else {
        let u = t.drop_last();
        lemma_split_at(u, row, c);
        assert(t.take(p) =~= u.take(p));
        assert(t.skip(p).drop_last() =~= u.skip(p));
        assert(t =~= t.take(p) + t.skip(p));
        lemma_newlines_concat(t.take(p), t.skip(p));
    }
}

/// A character other than a newline, put in at column `c` of line `row`, makes
/// that line one longer and leaves the lines where they are.
pub proof fn lemma_insert_char(t: Seq<char>, row: nat, c: nat, x: char)
    requires
        row <= newlines(t),
        c <= line_len(t, row),
        x != NEWLINE,
    ensures
        0 <= line_start(t, row) + c <= t.len(),
        newlines(t.insert(line_start(t, row) + c, x)) == newlines(t),
        line_len(t.insert(line_start(t, row) + c, x), row) == line_len(t, row) + 1,
        line_start(t.insert(line_start(t, row) + c, x), row) == line_start(t, row),
{
    let p = line_start(t, row) + c;
    let a = t.take(p);
    let b = t.skip(p);
    lemma_split_at(t, row, c);
    assert(t =~= a + b);
    assert(t.insert(p, x) =~= a.push(x) + b);
    lemma_push(a, x, row);
    lemma_newlines_concat(a, b);
    lemma_newlines_concat(a.push(x), b);
    lemma_seam_line(a.push(x), b);
}

/// A newline put in at column `c` of line `row` splits that line: the first
/// `c` characters stay, the rest become the next line.
pub proof fn lemma_insert_newline(t: Seq<char>, row: nat, c: nat)
    requires
        row <= newlines(t),
        c <= line_len(t, row),
    ensures
        0 <= line_start(t, row) + c <= t.len(),
        newlines(t.insert(line_start(t, row) + c, NEWLINE)) == newlines(t) + 1,
        line_len(t.insert(line_start(t, row) + c, NEWLINE), row) == c,
        line_len(t.insert(line_start(t, row) + c, NEWLINE), row + 1) == line_len(t, row) - c,
        line_start(t.insert(line_start(t, row) + c, NEWLINE), row + 1) == line_start(t, row) + c
            + 1,
{
    let p = line_start(t, row) + c;
    let a = t.take(p);
    let b = t.skip(p);
    lemma_split_at(t, row, c);
    assert(t =~= a + b);
    assert(t.insert(p, NEWLINE) =~= a.push(NEWLINE) + b);
    lemma_push(a, NEWLINE, row);
    lemma_last_line(a, row);
    lemma_newlines_concat(a, b);
    lemma_newlines_concat(a.push(NEWLINE), b);
    lemma_seam_line(a.push(NEWLINE), b);
    lemma_earlier_line(a.push(NEWLINE), b, row);
}

/// Taking out the character before column `c > 0` of line `row` makes that
/// line one shorter and leaves the lines where they are.
pub proof fn lemma_delete_char(t: Seq<char>, row: nat, c: nat)
    requires
        row <= newlines(t),
        0 < c <= line_len(t, row),
    ensures
        0 < line_start(t, row) + c <= t.len(),
        t[line_start(t, row) + c - 1] != NEWLINE,
        newlines(t.remove(line_start(t, row) + c - 1)) == newlines(t),
        line_len(t.remove(line_start(t, row) + c - 1), row) == line_len(t, row) - 1,
        line_start(t.remove(line_start(t, row) + c - 1), row) == line_start(t, row),
{
    let p = line_start(t, row) + c;
    let a = t.take(p);
    let b = t.skip(p);
    lemma_split_at(t, row, c);
    assert(t =~= a + b);
    let u = a.drop_last();
    assert(a =~= u.push(a.last()));
    assert(t.remove(p - 1) =~= u + b);
    lemma_push(u, a.last(), row);
    lemma_newlines_concat(a, b);
    lemma_newlines_concat(u, b);
    lemma_seam_line(u, b);
}

/// Taking out a character of line `row` leaves the lines above it as they
/// are.
pub proof fn lemma_delete_char_above(t: Seq<char>, row: nat, c: nat, above: nat)
    requires
        row <= newlines(t),
        0 < c <= line_len(t, row),
        above < row,
    ensures
        line_len(t.remove(line_start(t, row) + c - 1), above) == line_len(t, above),
        line_start(t.remove(line_start(t, row) + c - 1), above) == line_start(t, above),
{
    let p = line_start(t, row) + c;
    let a = t.take(p);
    let b = t.skip(p);
    lemma_split_at(t, row, c);
    assert(t =~= a + b);
    let u = a.drop_last();
    assert(a =~= u.push(a.last()));
    assert(t.remove(p - 1) =~= u + b);
    lemma_push(u, a.last(), above);
    lemma_earlier_line(a, b, above);
    lemma_earlier_line(u, b, above);
}

/// Taking out the newline before line `row > 0` joins that line to the one
/// before it, which then holds the characters of both.
pub proof fn lemma_merge_lines(t: Seq<char>, row: nat)
    requires
        0 < row <= newlines(t),
    ensures
        0 < line_start(t, row) <= t.len(),
        t[line_start(t, row) - 1] == NEWLINE,
        line_start(t, row) - 1 == line_start(t, (row - 1) as nat) + line_len(t, (row - 1) as nat),
        newlines(t.remove(line_start(t, row) - 1)) == newlines(t) - 1,
        line_len(t.remove(line_start(t, row) - 1), (row - 1) as nat) == line_len(
            t,
            (row - 1) as nat,
        ) + line_len(t, row),
        line_start(t.remove(line_start(t, row) - 1), (row - 1) as nat) == line_start(
            t,
            (row - 1) as nat,
        ),
{
    let p = line_start(t, row);
    let a = t.take(p);
    let b = t.skip(p);
    let above = (row - 1) as nat;
    lemma_split_at(t, row, 0);
    assert(t =~= a + b);
    let u = a.drop_last();
    assert(a =~= u.push(a.last()));
    assert(t.remove(p - 1) =~= u + b);
    lemma_push(u, a.last(), above);
    lemma_push(u, a.last(), row);
    lemma_last_line(u, above);
    lemma_tail_bound(u);
    lemma_newlines_concat(a, b);
    lemma_newlines_concat(u, b);
    lemma_seam_line(u, b);
    lemma_earlier_line(a, b, above);
}

/// How the lines lie in a text. The first begins at index 0; a line holds no
/// newline; behind every line but the last stands a newline, and the next
/// line begins behind that; the last line ends where the text ends.
pub proof fn lemma_line_layout(t: Seq<char>, row: nat)
    requires
        row <= newlines(t),
    ensures
        line_start(t, 0) == 0,
        0 <= line_start(t, row),
        line_start(t, row) + line_len(t, row) <= t.len(),
        forall|k: int|
            0 <= k < line_len(t, row) ==> #[trigger] t[line_start(t, row) + k] != NEWLINE,
        row < newlines(t) ==> t[line_start(t, row) + line_len(t, row)] == NEWLINE && line_start(
            t,
            row + 1,
        ) == line_start(t, row) + line_len(t, row) + 1,
        row == newlines(t) ==> line_start(t, row) + line_len(t, row) == t.len(),
{
    lemma_split_at(t, 0, 0);
    lemma_split_at(t, row, 0);
    lemma_split_at(t, row, line_len(t, row));
    lemma_last_line(t, row);
    assert forall|k: int| 0 <= k < line_len(t, row) implies #[trigger] t[line_start(t, row) + k]
        != NEWLINE by {
        lemma_delete_char(t, row, (k + 1) as nat);
    }
    if row < newlines(t) {
        lemma_merge_lines(t, row + 1);
    }
}

/// The characters of a string, in order.
pub fn chars_of(s: &str) -> (v: Vec<char>)
    ensures
        v@ == s@,
{
    broadcast use vstd::string::axiom_spec_iter;

    let mut v: Vec<char> = Vec::new();
    for c in iter: s.chars()
        invariant
            iter.seq() == s@,
            v@ == s@.take(iter.index()),
    {
        v.push(c);
    }
    assert(s@.take(s@.len() as int) == s@);
    v
}

/// The bytes of a string as a text: each byte stands as the character of its
/// value, so that a line's length is its length in bytes.
pub open spec fn byte_text(b: Seq<u8>) -> Seq<char> {
    Seq::new(b.len(), |i: int| b[i] as char)
}

/// The bytes of a string as a text.
pub fn bytes_of(s: &str) -> (v: Vec<char>)
    ensures
        v@ == byte_text(s.spec_bytes()),
{
    let bytes = s.as_bytes();
    let mut v: Vec<char> = Vec::new();
    let mut i: usize = 0;
    while i < bytes.len()
        invariant
            i <= bytes@.len(),
            v@.len() == i,
            forall|k: int| 0 <= k < i ==> v@[k] == bytes@[k] as char,
        decreases bytes@.len() - i,
    {
        v.push(bytes[i] as char);
        i += 1;
    }
    assert(v@ =~= byte_text(bytes@));
    v
}

/// A copy of a text.
pub fn copy_of(t: &[char]) -> (v: Vec<char>)
    ensures
        v@ == t@,
{
    let mut v: Vec<char> = Vec::new();
    let mut i: usize = 0;
    while i < t.len()
        invariant
            i <= t@.len(),
            v@ == t@.take(i as int),
        decreases t@.len() - i,
    {
        v.push(t[i]);
        assert(t@.take(i + 1) =~= t@.take(i as int).push(t@[i as int]));
        i += 1;
    }
    assert(t@.take(t@.len() as int) =~= t@);
    v
}

/// Counts the newlines of a text: the index of its last line.
pub fn last_row(t: &[char]) -> (n: usize)
    ensures
        n == newlines(t@),
        n <= t@.len(),
{
    let mut n: usize = 0;
    let mut i: usize = 0;
    while i < t.len()
        invariant
            i <= t@.len(),
            n <= i,
            n == newlines(t@.take(i as int)),
        decreases t@.len() - i,
    {
        assert(t@.take(i + 1).drop_last() =~= t@.take(i as int));
        if t[i] == NEWLINE {
            n += 1;
        }
        i += 1;
    }
    assert(t@.take(t@.len() as int) =~= t@);
    n
}

/// Finds line `row`: where it starts and how long it is.
pub fn line_extent(t: &[char], row: usize) -> (r: (usize, usize))
    ensures
        r.0 == line_start(t@, row as nat),
        r.1 == line_len(t@, row as nat),
        r.0 + r.1 <= t@.len(),
{
    let mut n: usize = 0;
    let mut start: usize = 0;
    let mut len: usize = 0;
    let mut i: usize = 0;
    while i < t.len()
        invariant
            i <= t@.len(),
            n <= i,
            n == newlines(t@.take(i as int)),
            start == line_start(t@.take(i as int), row as nat),
            len == line_len(t@.take(i as int), row as nat),
            start + len <= i,
        decreases t@.len() - i,
    {
        proof {
            assert(t@.take(i + 1) =~= t@.take(i as int).push(t@[i as int]));
            lemma_push(t@.take(i as int), t@[i as int], row as nat);
            lemma_last_line(t@.take(i as int), row as nat);
        }
        if t[i] == NEWLINE {
            n += 1;
            if row >= n {
                start = i + 1;
                len = 0;
            }
        } else if row > n {
            start = i + 1;
        } else if row == n {
            len += 1;
        }
        i += 1;
    }
    assert(t@.take(t@.len() as int) =~= t@);
    (start, len)
}

} // verus!
