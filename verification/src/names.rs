//! Text held in fixed cells.
//!
//! A name, a command token or an argument sits in a fixed number of byte
//! cells. Its text is the bytes before the first NUL cell, or all cells where
//! none is NUL.

use vstd::prelude::*;
use vstd::slice::slice_subrange;

verus! {

/// Number of cells of a directory or file name.
pub const MAX_SIZE_DIRECTORY_NAME: usize = 10;

/// The byte that ends a text held in cells.
pub const END_OF_TEXT: u8 = 0;

/// The position of the first `x` in `s` at or after `from`, or the length of
/// `s` where there is none.
pub open spec fn first_index_of<T>(s: Seq<T>, x: T, from: int) -> int
    decreases s.len() - from,
{
    if from < 0 || from >= s.len() {
        s.len() as int
    } else if s[from] == x {
        from
    } else {
        first_index_of(s, x, from + 1)
    }
}

/// `first_index_of` finds the first occurrence: nothing before it is `x`, and
/// unless it is the length, `x` is there.
pub proof fn lemma_first_index_of<T>(s: Seq<T>, x: T, from: int)
    requires
        0 <= from <= s.len(),
    ensures
        from <= first_index_of(s, x, from) <= s.len(),
        first_index_of(s, x, from) < s.len() ==> s[first_index_of(s, x, from)] == x,
        forall|i: int| from <= i < first_index_of(s, x, from) ==> s[i] != x,
    decreases s.len() - from,
{
    if from < s.len() && s[from] != x {
        lemma_first_index_of(s, x, from + 1);
    }
}

/// A position `n` with nothing equal to `x` between `from` and it, and which
/// holds `x` or is the length, is what `first_index_of` finds.
pub proof fn lemma_first_index_of_is<T>(s: Seq<T>, x: T, from: int, n: int)
    requires
        0 <= from <= n <= s.len(),
        forall|i: int| from <= i < n ==> s[i] != x,
        n < s.len() ==> s[n] == x,
    ensures
        first_index_of(s, x, from) == n,
    decreases n - from,
{
    if from < n {
        lemma_first_index_of_is(s, x, from + 1, n);
    }
}

/// The number of bytes of the text held in `cells`.
pub open spec fn text_len(cells: Seq<u8>) -> int {
    first_index_of(cells, END_OF_TEXT, 0)
}

/// The text held in `cells`.
pub open spec fn text_of(cells: Seq<u8>) -> Seq<u8> {
    cells.take(text_len(cells))
}

/// `width` cells that hold the first `width` bytes of `text`, the rest NUL.
pub open spec fn cells_of(text: Seq<u8>, width: int) -> Seq<u8> {
    Seq::new(
        width as nat,
        |i: int|
            if i < text.len() {
                text[i]
            } else {
                END_OF_TEXT
            },
    )
}

/// The cells of a directory or file name.
pub open spec fn name_cells(text: Seq<u8>) -> Seq<u8> {
    cells_of(text, MAX_SIZE_DIRECTORY_NAME as int)
}

/// No byte of `text` ends a text.
pub open spec fn is_text(text: Seq<u8>) -> bool {
    forall|i: int| 0 <= i < text.len() ==> text[i] != END_OF_TEXT
}

/// Whether a query finds the name in `cells`: the query fits in the cells
/// and each of its bytes equals the cell at its position. Cells after the
/// query's end are not looked at, so a query finds every name that it is a
/// prefix of.
pub open spec fn name_matches(query: Seq<u8>, cells: Seq<u8>) -> bool {
    query.len() <= cells.len() && cells.take(query.len() as int) == query
}

/// Whether `cells` hold the name `text`: the text fits in the cells, each
/// of its bytes stands in the cell at its position, and every cell after
/// them is NUL.
pub open spec fn name_is(text: Seq<u8>, cells: Seq<u8>) -> bool {
    text.len() <= cells.len() && cells == cells_of(text, cells.len() as int)
}

/// Cells that hold a name are found by it.
pub proof fn lemma_name_is_matches(text: Seq<u8>, cells: Seq<u8>)
    requires
        name_is(text, cells),
    ensures
        name_matches(text, cells),
{
    assert(cells.take(text.len() as int) =~= text);
}

/// The cells made of a text that fits hold that name.
pub proof fn lemma_name_cells_hold(text: Seq<u8>)
    requires
        text.len() <= MAX_SIZE_DIRECTORY_NAME,
    ensures
        name_is(text, name_cells(text)),
{
}

/// The text of cells is a text, and no longer than the cells.
pub proof fn lemma_text_of(cells: Seq<u8>)
    ensures
        0 <= text_len(cells) <= cells.len(),
        text_of(cells).len() == text_len(cells),
        is_text(text_of(cells)),
        text_len(cells) < cells.len() ==> cells[text_len(cells)] == END_OF_TEXT,
{
    lemma_first_index_of(cells, END_OF_TEXT, 0);
}

/// Cells made of a text that fits give the text back.
pub proof fn lemma_text_of_cells(text: Seq<u8>, width: int)
    requires
        is_text(text),
        text.len() <= width,
    ensures
        text_of(cells_of(text, width)) == text,
{
    let cells = cells_of(text, width);
    lemma_first_index_of_is(cells, END_OF_TEXT, 0, text.len() as int);
    assert(cells.take(text.len() as int) =~= text);
}

/// A text finds the name made of it.
pub proof fn lemma_name_matches_itself(text: Seq<u8>)
    requires
        text.len() <= MAX_SIZE_DIRECTORY_NAME,
    ensures
        name_matches(text, name_cells(text)),
{
    assert(name_cells(text).take(text.len() as int) =~= text);
}

/// The number of bytes of the text held in `cells`.
pub fn name_length(cells: &[u8]) -> (n: usize)
    ensures
        n == text_len(cells@),
{
    let mut n: usize = 0;
    while n < cells.len() && cells[n] != END_OF_TEXT
        invariant
            n <= cells@.len(),
            forall|i: int| 0 <= i < n ==> cells@[i] != END_OF_TEXT,
        decreases cells@.len() - n,
    {
        n += 1;
    }
    proof {
        lemma_first_index_of_is(cells@, END_OF_TEXT, 0, n as int);
    }
    n
}

/// Whether the text held in `query` finds the name in `cells`.
pub fn matches_name(query: &[u8], cells: &[u8; MAX_SIZE_DIRECTORY_NAME]) -> (found: bool)
    ensures
        found == name_matches(text_of(query@), cells@),
{
    let len = name_length(query);
    proof {
        lemma_text_of(query@);
    }
    if len > MAX_SIZE_DIRECTORY_NAME {
        return false;
    }
    let mut i: usize = 0;
    while i < len
        invariant
            i <= len <= MAX_SIZE_DIRECTORY_NAME,
            len == text_len(query@),
            len <= query@.len(),
            forall|k: int| 0 <= k < i ==> cells@[k] == query@[k],
        decreases len - i,
    {
        if cells[i] != query[i] {
            proof {
                let text = text_of(query@);
                assert(cells@.take(text.len() as int)[i as int] != text[i as int]);
            }
            return false;
        }
        i += 1;
    }
    assert(cells@.take(len as int) =~= text_of(query@));
    true
}

/// Whether `cells` hold `text` as a name: byte for byte, and NUL in every
/// cell after the text.
pub fn cells_hold<const N: usize>(text: &[u8], cells: &[u8; N]) -> (same: bool)
    ensures
        same == name_is(text@, cells@),
{
    let len = text.len();
    if len > N {
        return false;
    }
    let ghost wanted = cells_of(text@, N as int);
    let mut i: usize = 0;
    while i < N
        invariant
            i <= N,
            len <= N,
            len == text@.len(),
            wanted == cells_of(text@, N as int),
            forall|k: int| 0 <= k < i ==> cells@[k] == wanted[k],
        decreases N - i,
    {
        let expected: u8 = if i < len {
            text[i]
        } else {
            END_OF_TEXT
        };
        assert(expected == wanted[i as int]);
        if cells[i] != expected {
            return false;
        }
        i += 1;
    }
    assert(cells@ =~= wanted);
    true
}

/// Whether `cells` hold the name whose text is held in `query`.
pub fn is_name(query: &[u8], cells: &[u8; MAX_SIZE_DIRECTORY_NAME]) -> (same: bool)
    ensures
        same == name_is(text_of(query@), cells@),
{
    let len = name_length(query);
    proof {
        lemma_text_of(query@);
    }
    cells_hold(slice_subrange(query, 0, len), cells)
}

/// The cells of the name whose text is held in `text`, cut to the cells'
/// number.
pub fn make_name(text: &[u8]) -> (cells: [u8; MAX_SIZE_DIRECTORY_NAME])
    ensures
        cells@ == name_cells(text_of(text@)),
{
    let len = name_length(text);
    proof {
        lemma_text_of(text@);
    }
    let mut cells: [u8; MAX_SIZE_DIRECTORY_NAME] = [END_OF_TEXT; MAX_SIZE_DIRECTORY_NAME];
    let mut i: usize = 0;
    while i < MAX_SIZE_DIRECTORY_NAME && i < len
        invariant
            i <= MAX_SIZE_DIRECTORY_NAME,
            i <= len,
            len == text_len(text@),
            len <= text@.len(),
            forall|k: int| 0 <= k < i ==> cells@[k] == text@[k],
            forall|k: int| i <= k < MAX_SIZE_DIRECTORY_NAME ==> cells@[k] == END_OF_TEXT,
        decreases MAX_SIZE_DIRECTORY_NAME - i,
    {
        cells[i] = text[i];
        i += 1;
    }
    assert(cells@ =~= name_cells(text_of(text@)));
    cells
}

} // verus!
