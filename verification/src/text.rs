//! A document as a sequence of lines, and the plain text it is read from and
//! written to.

use vstd::prelude::*;

verus! {

/// The lines of a text: the pieces between its newline characters. A text
/// without a newline is one line, and a text that ends in a newline has an
/// empty last line, so there is always at least one line.
pub open spec fn split_lines(text: Seq<char>) -> Seq<Seq<char>>
    decreases text.len(),
{
    if text.len() == 0 {
        seq![Seq::<char>::empty()]
    } else {
        let before = split_lines(text.drop_last());
        if text.last() == '\n' {
            before.push(Seq::<char>::empty())
        } else {
            before.drop_last().push(before.last().push(text.last()))
        }
    }
}

/// The text of a document: its lines with one newline between each two.
pub open spec fn join_lines(lines: Seq<Seq<char>>) -> Seq<char>
    decreases lines.len(),
{
    if lines.len() == 0 {
        Seq::<char>::empty()
    } else if lines.len() == 1 {
        lines[0]
    } else {
        join_lines(lines.drop_last()) + seq!['\n'] + lines.last()
    }
}

/// No line holds a newline character.
pub open spec fn newline_free(lines: Seq<Seq<char>>) -> bool {
    forall|i: int, j: int|
        0 <= i < lines.len() && 0 <= j < lines[i].len() ==> (#[trigger] lines[i][j]) != '\n'
}

/// Every line is short enough for its length to be a `usize`.
pub open spec fn lines_fit(lines: Seq<Seq<char>>) -> bool {
    forall|i: int| 0 <= i < lines.len() ==> (#[trigger] lines[i]).len() <= usize::MAX
}

/// What a vector of lines stands for.
pub open spec fn lines_view(lines: Seq<Vec<char>>) -> Seq<Seq<char>> {
    lines.map_values(|line: Vec<char>| line@)
}

/// The lines that a vector holds are short enough for their lengths to be
/// a `usize`, and so is their number.
pub proof fn lemma_stored_lines_fit(lines: Vec<Vec<char>>)
    ensures
        lines_fit(lines_view(lines@)),
        lines_view(lines@).len() <= usize::MAX,
{
    assert(lines@.len() == lines.len());
    assert forall|i: int| 0 <= i < lines@.len() implies (#[trigger] lines_view(lines@)[i]).len()
        <= usize::MAX by {
        assert(lines@[i]@.len() == lines@[i].len());
    }
}

/// Splitting always yields at least one line, and none of them holds a
/// newline.
pub proof fn lemma_split_lines_shape(text: Seq<char>)
    ensures
        split_lines(text).len() >= 1,
        newline_free(split_lines(text)),
    decreases text.len(),
{
    if text.len() > 0 {
        lemma_split_lines_shape(text.drop_last());
    }
}

/// Joining the lines of a text gives the text back.
pub proof fn lemma_join_split(text: Seq<char>)
    ensures
        join_lines(split_lines(text)) == text,
    decreases text.len(),
{
    if text.len() == 0 {
        assert(join_lines(split_lines(text)) =~= text);
    } else {
        let init = text.drop_last();
        let before = split_lines(init);
        lemma_join_split(init);
        lemma_split_lines_shape(init);
        if text.last() == '\n' {
            let after = before.push(Seq::<char>::empty());
            assert(after.drop_last() =~= before);
            assert(join_lines(after) =~= init + seq!['\n']);
            assert(init + seq!['\n'] =~= text);
        } else {
            let grown = before.last().push(text.last());
            let after = before.drop_last().push(grown);
            assert(after.drop_last() =~= before.drop_last());
            if before.len() == 1 {
                assert(join_lines(before) == before[0]);
                assert(join_lines(after) =~= init.push(text.last()));
            } else {
                assert(join_lines(after) =~= join_lines(before.drop_last()) + seq!['\n'] + grown);
                assert(join_lines(before) =~= join_lines(before.drop_last()) + seq!['\n']
                    + before.last());
                assert(join_lines(after) =~= join_lines(before).push(text.last()));
            }
            assert(init.push(text.last()) =~= text);
        }
    }
}

/// A text ends in a newline exactly when its lines end with an empty line
/// after at least one other line.
pub proof fn lemma_trailing_line(text: Seq<char>)
    ensures
        (text.len() > 0 && text.last() == '\n') <==> (split_lines(text).len() >= 2 && split_lines(
            text,
        ).last().len() == 0),
{
    if text.len() > 0 {
        lemma_split_lines_shape(text.drop_last());
    }
}

/// Appending a character that is no newline to a text appends it to the
/// text's last line.
proof fn lemma_split_push(text: Seq<char>, c: char)
    ensures
        split_lines(text.push(c)) == if c == '\n' {
            split_lines(text).push(Seq::<char>::empty())
        } else {
            split_lines(text).drop_last().push(split_lines(text).last().push(c))
        },
{
    assert(text.push(c).drop_last() =~= text);
}

/// Splitting a text that ends in a newline-free piece: the piece joins the
/// last line of what comes before it.
proof fn lemma_split_append(text: Seq<char>, tail: Seq<char>)
    requires
        forall|j: int| 0 <= j < tail.len() ==> tail[j] != '\n',
    ensures
        split_lines(text + tail) == split_lines(text).drop_last().push(
            split_lines(text).last() + tail,
        ),
    decreases tail.len(),
{
    lemma_split_lines_shape(text);
    if tail.len() == 0 {
        assert(text + tail =~= text);
        assert(split_lines(text).last() + tail =~= split_lines(text).last());
        assert(split_lines(text).drop_last().push(split_lines(text).last()) =~= split_lines(
            text,
        ));
    } else {
        let shorter = tail.drop_last();
        lemma_split_append(text, shorter);
        lemma_split_push(text + shorter, tail.last());
        assert((text + shorter).push(tail.last()) =~= text + tail);
        let before = split_lines(text + shorter);
        assert(before.drop_last() =~= split_lines(text).drop_last());
        assert(before.last().push(tail.last()) =~= split_lines(text).last() + tail);
    }
}

/// Splitting the text of a document gives its lines back, as long as the
/// document has a line and no line holds a newline.
pub proof fn lemma_split_join(lines: Seq<Seq<char>>)
    requires
        lines.len() >= 1,
        newline_free(lines),
    ensures
        split_lines(join_lines(lines)) == lines,
    decreases lines.len(),
{
    if lines.len() == 1 {
        let empty = Seq::<char>::empty();
        lemma_split_append(empty, lines[0]);
        assert(empty + lines[0] =~= lines[0]);
        assert(split_lines(empty) =~= seq![empty]);
        assert(seq![empty].drop_last().push(empty + lines[0]) =~= lines);
    } else {
        let init = lines.drop_last();
        assert(newline_free(init)) by {
            assert forall|i: int, j: int|
                0 <= i < init.len() && 0 <= j < init[i].len() implies (#[trigger] init[i][j])
                != '\n' by {
                assert(init[i] == lines[i]);
                assert(lines[i][j] != '\n');
            }
        }
        lemma_split_join(init);
        let head = join_lines(init) + seq!['\n'];
        assert(head =~= join_lines(init).push('\n'));
        lemma_split_push(join_lines(init), '\n');
        assert(split_lines(head) == init.push(Seq::<char>::empty()));
        assert forall|j: int| 0 <= j < lines.last().len() implies lines.last()[j] != '\n' by {
            assert(lines[lines.len() - 1][j] != '\n');
        }
        lemma_split_append(head, lines.last());
        assert(join_lines(lines) == head + lines.last());
        assert(init.push(Seq::<char>::empty()).drop_last().push(
            Seq::<char>::empty() + lines.last(),
        ) =~= lines);
    }
}

/// The document after the line at `row` has been cut in two at `col`: the
/// part before `col` stays, the rest becomes a line of its own below it.
pub open spec fn split_line(lines: Seq<Seq<char>>, row: int, col: int) -> Seq<Seq<char>> {
    lines.update(row, lines[row].take(col)).insert(row + 1, lines[row].skip(col))
}

/// The document after the line at `row` has been joined to the end of the
/// line above it.
pub open spec fn merge_line(lines: Seq<Seq<char>>, row: int) -> Seq<Seq<char>> {
    lines.update(row - 1, lines[row - 1] + lines[row]).remove(row)
}

/// The document after the character at `col` of the line at `row` has been
/// taken out.
pub open spec fn remove_char(lines: Seq<Seq<char>>, row: int, col: int) -> Seq<Seq<char>> {
    lines.update(row, lines[row].remove(col))
}

/// The document after a character has been put in at `col` of the line at
/// `row`.
pub open spec fn insert_char(lines: Seq<Seq<char>>, row: int, col: int, c: char) -> Seq<
    Seq<char>,
> {
    lines.update(row, lines[row].insert(col, c))
}

/// Cutting a line in two adds a line and brings no newline in.
pub proof fn lemma_split_line(lines: Seq<Seq<char>>, row: int, col: int)
    requires
        newline_free(lines),
        0 <= row < lines.len(),
        0 <= col <= lines[row].len(),
    ensures
        split_line(lines, row, col).len() == lines.len() + 1,
        newline_free(split_line(lines, row, col)),
        split_line(lines, row, col)[row] + split_line(lines, row, col)[row + 1] == lines[row],
{
    let after = split_line(lines, row, col);
    assert forall|i: int, j: int| 0 <= i < after.len() && 0 <= j < after[i].len() implies (
    #[trigger] after[i][j]) != '\n' by {
        if i < row {
            assert(after[i][j] == lines[i][j]);
        } else if i == row {
            assert(after[i][j] == lines[row][j]);
        } else if i == row + 1 {
            assert(after[i][j] == lines[row][col + j]);
        } else {
            assert(after[i][j] == lines[i - 1][j]);
        }
    }
    assert(after[row] + after[row + 1] =~= lines[row]);
}

/// Joining a line to the one above it takes a line away, as long as it is
/// not the first, and brings no newline in.
pub proof fn lemma_merge_line(lines: Seq<Seq<char>>, row: int)
    requires
        newline_free(lines),
        0 < row < lines.len(),
    ensures
        merge_line(lines, row).len() == lines.len() - 1,
        merge_line(lines, row).len() >= 1,
        newline_free(merge_line(lines, row)),
{
    let after = merge_line(lines, row);
    assert forall|i: int, j: int| 0 <= i < after.len() && 0 <= j < after[i].len() implies (
    #[trigger] after[i][j]) != '\n' by {
        if i < row - 1 {
            assert(after[i][j] == lines[i][j]);
        } else if i == row - 1 {
            if j < lines[row - 1].len() {
                assert(after[i][j] == lines[row - 1][j]);
            } else {
                assert(after[i][j] == lines[row][j - lines[row - 1].len()]);
            }
        } else {
            assert(after[i][j] == lines[i + 1][j]);
        }
    }
}

/// Taking a character out keeps the number of lines and brings no newline
/// in.
pub proof fn lemma_remove_char(lines: Seq<Seq<char>>, row: int, col: int)
    requires
        newline_free(lines),
        0 <= row < lines.len(),
        0 <= col < lines[row].len(),
    ensures
        remove_char(lines, row, col).len() == lines.len(),
        remove_char(lines, row, col)[row].len() == lines[row].len() - 1,
        newline_free(remove_char(lines, row, col)),
{
    let after = remove_char(lines, row, col);
    assert forall|i: int, j: int| 0 <= i < after.len() && 0 <= j < after[i].len() implies (
    #[trigger] after[i][j]) != '\n' by {
        if i != row {
            assert(after[i][j] == lines[i][j]);
        } else if j < col {
            assert(after[i][j] == lines[row][j]);
        } else {
            assert(after[i][j] == lines[row][j + 1]);
        }
    }
}

/// Putting in a character that is no newline keeps the number of lines and
/// brings no newline in.
pub proof fn lemma_insert_char(lines: Seq<Seq<char>>, row: int, col: int, c: char)
    requires
        newline_free(lines),
        0 <= row < lines.len(),
        0 <= col <= lines[row].len(),
        c != '\n',
    ensures
        insert_char(lines, row, col, c).len() == lines.len(),
        insert_char(lines, row, col, c)[row].len() == lines[row].len() + 1,
        newline_free(insert_char(lines, row, col, c)),
{
    let after = insert_char(lines, row, col, c);
    assert forall|i: int, j: int| 0 <= i < after.len() && 0 <= j < after[i].len() implies (
    #[trigger] after[i][j]) != '\n' by {
        if i != row {
            assert(after[i][j] == lines[i][j]);
        } else if j < col {
            assert(after[i][j] == lines[row][j]);
        } else if j > col {
            assert(after[i][j] == lines[row][j - 1]);
        }
    }
}

/// Splits a text into its lines.
pub fn lines_of(text: &str) -> (lines: Vec<Vec<char>>)
    ensures
        lines_view(lines@) == split_lines(text@),
        lines@.len() >= 1,
{
    let mut lines: Vec<Vec<char>> = Vec::new();
    let mut current: Vec<char> = Vec::new();
    proof {
        assert(lines_view(lines@).push(current@) =~= split_lines(text@.take(0)));
    }
    for c in it: text.chars()
        invariant
            it.seq() == text@,
            lines_view(lines@).push(current@) == split_lines(text@.take(it.index() as int)),
    {
        proof {
            let seen = text@.take(it.index() as int);
            lemma_split_push(seen, c);
            assert(seen.push(c) =~= text@.take(it.index() + 1));
        }
        if c == '\n' {
            let ghost before = lines_view(lines@).push(current@);
            lines.push(current);
            current = Vec::new();
            proof {
                assert(lines_view(lines@) =~= before);
            }
        } else {
            let ghost before = lines_view(lines@).push(current@);
            current.push(c);
            proof {
                assert(lines_view(lines@).push(current@) =~= before.drop_last().push(
                    before.last().push(c),
                ));
            }
        }
    }
    proof {
        assert(text@.take(text@.len() as int) =~= text@);
        lemma_split_lines_shape(text@);
    }
    let ghost before = lines_view(lines@).push(current@);
    lines.push(current);
    proof {
        assert(lines_view(lines@) =~= before);
    }
    lines
}

/// `String::push` appends one character to the end of a string.
#[verifier::external_body]
fn push_char(s: &mut String, c: char)
    ensures
        final(s)@ == old(s)@.push(c),
{
    s.push(c)
}

/// The string that holds the given characters.
pub fn string_of(chars: &Vec<char>) -> (s: String)
    ensures
        s@ == chars@,
{
    let mut s = String::new();
    let mut i: usize = 0;
    while i < chars.len()
        invariant
            0 <= i <= chars.len(),
            s@ == chars@.take(i as int),
        decreases chars.len() - i,
    {
        push_char(&mut s, chars[i]);
        proof {
            assert(chars@.take(i as int).push(chars@[i as int]) =~= chars@.take(i + 1));
        }
        i += 1;
    }
    proof {
        assert(chars@.take(chars@.len() as int) =~= chars@);
    }
    s
}

/// The string that holds the characters from `start` up to `end`.
pub fn string_of_range(chars: &Vec<char>, start: usize, end: usize) -> (s: String)
    requires
        start <= end <= chars@.len(),
    ensures
        s@ == chars@.subrange(start as int, end as int),
{
    let mut s = String::new();
    let mut i: usize = start;
    while i < end
        invariant
            start <= i <= end <= chars@.len(),
            s@ == chars@.subrange(start as int, i as int),
        decreases end - i,
    {
        push_char(&mut s, chars[i]);
        proof {
            assert(chars@.subrange(start as int, i as int).push(chars@[i as int])
                =~= chars@.subrange(start as int, i + 1));
        }
        i += 1;
    }
    s
}

} // verus!
