//! Highlight runs: for each line, coloured column ranges that tile it.
//!
//! The colours come from syntect. Its parser and highlighter keep state from
//! line to line, so a document is highlighted by one session that is fed
//! the lines in order.

use vstd::prelude::*;
use syntect::highlighting::{HighlightState, Highlighter, RangedHighlightIterator, Theme, ThemeSet};
use syntect::parsing::{ParseState, ScopeStack, SyntaxReference, SyntaxSet};
use crate::text::string_of;

verus! {

/// An RGBA colour, one byte per channel.
#[derive(Debug, Clone, Copy, PartialEq, Eq, Structural)]
pub struct Color {
    pub r: u8,
    pub g: u8,
    pub b: u8,
    pub a: u8,
}

/// A stretch of a line's text with the colour the highlighter gave it.
#[derive(Debug)]
pub struct Piece {
    pub text: String,
    pub color: Color,
}

/// A coloured range of columns in one line, start included, end excluded.
#[derive(Debug, Clone, Copy, PartialEq, Eq, Structural)]
pub struct Run {
    pub start: usize,
    pub end: usize,
    pub color: Color,
}

/// What a piece stands for: its text and its colour.
pub open spec fn pieces_view(pieces: Seq<Piece>) -> Seq<(Seq<char>, Color)> {
    pieces.map_values(|piece: Piece| (piece.text@, piece.color))
}

/// The text that a sequence of pieces spells out.
pub open spec fn pieces_text(pieces: Seq<(Seq<char>, Color)>) -> Seq<char>
    decreases pieces.len(),
{
    if pieces.len() == 0 {
        Seq::<char>::empty()
    } else {
        pieces_text(pieces.drop_last()) + pieces.last().0
    }
}

/// The runs of a sequence of pieces: each piece keeps its colour and covers
/// the columns at which its text stands.
pub open spec fn runs_of(pieces: Seq<(Seq<char>, Color)>) -> Seq<Run> {
    Seq::new(
        pieces.len(),
        |i: int|
            Run {
                start: pieces_text(pieces.take(i)).len() as usize,
                end: pieces_text(pieces.take(i + 1)).len() as usize,
                color: pieces[i].1,
            },
    )
}

impl Run {
    /// Whether a column lies in the run.
    pub open spec fn holds(self, column: int) -> bool {
        self.start <= column < self.end
    }
}

/// Whether a column lies in one of the runs.
pub open spec fn covered(runs: Seq<Run>, column: int) -> bool {
    exists|i: int| 0 <= i < runs.len() && #[trigger] runs[i].holds(column)
}

/// Whether the run at index `i` is not empty and starts where the run
/// before it ends, or at column 0 if it is the first.
pub open spec fn follows(runs: Seq<Run>, i: int) -> bool {
    &&& runs[i].start < runs[i].end
    &&& runs[i].start == if i == 0 {
        0
    } else {
        runs[i - 1].end
    }
}

/// Runs tile a line of `length` columns when none is empty, the first
/// starts at column 0, each starts where the one before it ends, and the
/// last ends at `length`. A line without columns has no runs.
pub open spec fn tiles(runs: Seq<Run>, length: nat) -> bool {
    &&& forall|i: int| 0 <= i < runs.len() ==> #[trigger] follows(runs, i)
    &&& length == if runs.len() == 0 {
        0
    } else {
        runs.last().end
    }
}

/// What a vector of per-line run lists stands for.
pub open spec fn runs_view(info: Seq<Vec<Run>>) -> Seq<Seq<Run>> {
    info.map_values(|runs: Vec<Run>| runs@)
}

/// A highlight index matches a document when it has one run list per line
/// and each list tiles its line.
pub open spec fn highlights_match(info: Seq<Seq<Run>>, lines: Seq<Seq<char>>) -> bool {
    &&& info.len() == lines.len()
    &&& forall|i: int| 0 <= i < lines.len() ==> tiles(#[trigger] info[i], lines[i].len())
}

/// The text of the first pieces is a prefix of the text of all of them.
pub proof fn lemma_pieces_text_grows(pieces: Seq<(Seq<char>, Color)>, n: int)
    requires
        0 <= n <= pieces.len(),
    ensures
        pieces_text(pieces.take(n)).len() <= pieces_text(pieces).len(),
        n < pieces.len() ==> pieces_text(pieces.take(n + 1)) == pieces_text(pieces.take(n))
            + pieces[n].0,
    decreases pieces.len() - n,
{
    if n == pieces.len() {
        assert(pieces.take(n) =~= pieces);
    } else {
        assert(pieces.take(n + 1).drop_last() =~= pieces.take(n));
        assert(pieces.take(n + 1).last() == pieces[n]);
        lemma_pieces_text_grows(pieces, n + 1);
    }
}

/// Pieces that are not empty become runs that tile the text they spell.
pub proof fn lemma_runs_tile(pieces: Seq<(Seq<char>, Color)>)
    requires
        forall|i: int| 0 <= i < pieces.len() ==> (#[trigger] pieces[i]).0.len() > 0,
        pieces_text(pieces).len() <= usize::MAX,
    ensures
        tiles(runs_of(pieces), pieces_text(pieces).len()),
{
    let runs = runs_of(pieces);
    assert forall|i: int| 0 <= i < runs.len() implies #[trigger] follows(runs, i) by {
        lemma_pieces_text_grows(pieces, i);
        lemma_pieces_text_grows(pieces, i + 1);
        assert(pieces[i].0.len() > 0);
        if i == 0 {
            assert(pieces.take(0) =~= Seq::<(Seq<char>, Color)>::empty());
        }
    }
    if runs.len() > 0 {
        assert(pieces.take(pieces.len() as int) =~= pieces);
    }
}

/// Runs that tile a line ascend: a later run starts at or after the end of
/// an earlier one.
pub proof fn lemma_tiles_ascend(runs: Seq<Run>, length: nat, i: int, j: int)
    requires
        tiles(runs, length),
        0 <= i < j < runs.len(),
    ensures
        runs[i].end <= runs[j].start,
    decreases j - i,
{
    assert(follows(runs, j));
    if i + 1 < j {
        lemma_tiles_ascend(runs, length, i, j - 1);
        assert(follows(runs, j - 1));
    }
}

/// Runs that tile a line end within the line.
pub proof fn lemma_tiles_within(runs: Seq<Run>, length: nat, i: int)
    requires
        tiles(runs, length),
        0 <= i < runs.len(),
    ensures
        runs[i].start < runs[i].end <= length,
{
    assert(follows(runs, i));
    if i + 1 < runs.len() {
        lemma_tiles_ascend(runs, length, i, runs.len() - 1);
        assert(follows(runs, runs.len() - 1));
    }
}

/// Runs that tile a line cover it without overlap: the columns that lie
/// in some run are exactly the columns of the line, and no column lies in
/// two runs.
pub proof fn lemma_tiles_partition(runs: Seq<Run>, length: nat)
    requires
        tiles(runs, length),
    ensures
        forall|c: int| #[trigger] covered(runs, c) <==> 0 <= c < length,
        forall|c: int, i: int, j: int|
            0 <= i < runs.len() && 0 <= j < runs.len() && (#[trigger] runs[i].holds(c))
                && (#[trigger] runs[j].holds(c)) ==> i == j,
{
    assert forall|c: int| #[trigger] covered(runs, c) <==> 0 <= c < length by {
        if covered(runs, c) {
            let i = choose|i: int| 0 <= i < runs.len() && #[trigger] runs[i].holds(c);
            lemma_tiles_within(runs, length, i);
        }
        if 0 <= c < length {
            lemma_tiles_reach(runs, length, c, runs.len() as int);
        }
    }
    assert forall|c: int, i: int, j: int|
        0 <= i < runs.len() && 0 <= j < runs.len() && (#[trigger] runs[i].holds(c))
            && (#[trigger] runs[j].holds(c)) implies i == j by {
        if i < j {
            lemma_tiles_ascend(runs, length, i, j);
        }
        if j < i {
            lemma_tiles_ascend(runs, length, j, i);
        }
        assert(follows(runs, i) && follows(runs, j));
    }
}

/// A highlight index that matches a document has as many run lists as the
/// document has lines, and the runs of each line cover exactly the columns
/// of that line, no column twice.
pub proof fn lemma_highlights_partition(info: Seq<Seq<Run>>, lines: Seq<Seq<char>>)
    requires
        highlights_match(info, lines),
    ensures
        info.len() == lines.len(),
        forall|row: int, c: int|
            0 <= row < lines.len() ==> (#[trigger] covered(info[row], c) <==> 0 <= c
                < lines[row].len()),
        forall|row: int, c: int, i: int, j: int|
            0 <= row < lines.len() && 0 <= i < info[row].len() && 0 <= j < info[row].len() && (
            #[trigger] info[row][i].holds(c)) && (#[trigger] info[row][j].holds(c)) ==> i == j,
{
    assert forall|row: int, c: int| 0 <= row < lines.len() implies (#[trigger] covered(
        info[row],
        c,
    ) <==> 0 <= c < lines[row].len()) by {
        assert(tiles(info[row], lines[row].len()));
        lemma_tiles_partition(info[row], lines[row].len());
    }
    assert forall|row: int, c: int, i: int, j: int|
        0 <= row < lines.len() && 0 <= i < info[row].len() && 0 <= j < info[row].len() && (
        #[trigger] info[row][i].holds(c)) && (#[trigger] info[row][j].holds(c)) implies i == j by {
        assert(tiles(info[row], lines[row].len()));
        lemma_tiles_partition(info[row], lines[row].len());
    }
}

/// The pieces that runs cut a line into: the text of each is what stands at
/// the columns of its run, and its colour is the run's.
pub open spec fn pieces_at(line: Seq<char>, runs: Seq<Run>) -> Seq<(Seq<char>, Color)> {
    Seq::new(
        runs.len(),
        |i: int| (line.subrange(runs[i].start as int, runs[i].end as int), runs[i].color),
    )
}

/// The first pieces that tiling runs cut a line into spell the line up to
/// where the last of those runs ends.
pub proof fn lemma_pieces_at_prefix(line: Seq<char>, runs: Seq<Run>, count: int)
    requires
        tiles(runs, line.len()),
        0 <= count <= runs.len(),
    ensures
        pieces_text(pieces_at(line, runs).take(count)) == line.take(
            if count == 0 {
                0
            } else {
                runs[count - 1].end as int
            },
        ),
    decreases count,
{
    let pieces = pieces_at(line, runs);
    if count == 0 {
        assert(pieces_text(pieces.take(0)) =~= line.take(0));
    } else {
        lemma_pieces_at_prefix(line, runs, count - 1);
        lemma_pieces_text_grows(pieces, count - 1);
        lemma_tiles_within(runs, line.len(), count - 1);
        assert(follows(runs, count - 1));
        assert(line.take(runs[count - 1].start as int) + line.subrange(
            runs[count - 1].start as int,
            runs[count - 1].end as int,
        ) =~= line.take(runs[count - 1].end as int));
    }
}

/// The pieces that tiling runs cut a line into spell the line, and laid
/// out as runs they give the same runs back.
pub proof fn lemma_pieces_at(line: Seq<char>, runs: Seq<Run>)
    requires
        tiles(runs, line.len()),
    ensures
        pieces_text(pieces_at(line, runs)) == line,
        runs_of(pieces_at(line, runs)) == runs,
{
    let pieces = pieces_at(line, runs);
    lemma_pieces_at_prefix(line, runs, runs.len() as int);
    assert(pieces.take(runs.len() as int) =~= pieces);
    assert(line.take(line.len() as int) =~= line);
    assert forall|i: int| 0 <= i < runs.len() implies runs_of(pieces)[i] == runs[i] by {
        lemma_pieces_at_prefix(line, runs, i);
        lemma_pieces_at_prefix(line, runs, i + 1);
        lemma_tiles_within(runs, line.len(), i);
        assert(follows(runs, i));
    }
    assert(runs_of(pieces) =~= runs);
}

/// A column before the end of the first `n` runs lies in one of them.
proof fn lemma_tiles_reach(runs: Seq<Run>, length: nat, c: int, n: int)
    requires
        tiles(runs, length),
        0 <= n <= runs.len(),
        0 <= c,
        n > 0 ==> c < runs[n - 1].end,
        n == 0 ==> c < 0,
    ensures
        covered(runs, c),
    decreases n,
{
    if n > 0 {
        if runs[n - 1].start <= c {
            assert(runs[n - 1].holds(c));
        } else {
            assert(follows(runs, n - 1));
            lemma_tiles_reach(runs, length, c, n - 1);
        }
    }
}

/// Lays pieces out as runs: each piece covers as many columns as its text
/// has characters, from where the piece before it ended. `None` if the
/// pieces have more characters than a `usize` can count.
pub fn runs_from_pieces(pieces: &Vec<Piece>) -> (runs: Option<Vec<Run>>)
    ensures
        runs.is_some() == (pieces_text(pieces_view(pieces@)).len() <= usize::MAX),
        runs matches Some(list) ==> list@ == runs_of(pieces_view(pieces@)),
{
    let ghost shades = pieces_view(pieces@);
    let mut runs: Vec<Run> = Vec::new();
    let mut column: usize = 0;
    let mut i: usize = 0;
    proof {
        assert(shades.take(0) =~= Seq::<(Seq<char>, Color)>::empty());
    }
    while i < pieces.len()
        invariant
            0 <= i <= pieces.len(),
            shades == pieces_view(pieces@),
            column == pieces_text(shades.take(i as int)).len(),
            runs@ == runs_of(shades).take(i as int),
        decreases pieces.len() - i,
    {
        let width = pieces[i].text.as_str().unicode_len();
        proof {
            lemma_pieces_text_grows(shades, i as int);
            lemma_pieces_text_grows(shades, i + 1);
            assert(shades[i as int] == (pieces@[i as int].text@, pieces@[i as int].color));
        }
        let end = match column.checked_add(width) {
            Some(end) => end,
            None => {
                return None;
            },
        };
        runs.push(Run { start: column, end, color: pieces[i].color });
        proof {
            assert(runs@ =~= runs_of(shades).take(i + 1));
        }
        column = end;
        i += 1;
    }
    proof {
        assert(shades.take(shades.len() as int) =~= shades);
        assert(runs_of(shades).take(shades.len() as int) =~= runs_of(shades));
    }
    Some(runs)
}

/// syntect's set of syntax definitions, carried through as it is.
#[verifier::external_type_specification]
#[verifier::external_body]
pub struct ExSyntaxSet(SyntaxSet);

/// One syntax of a `SyntaxSet`, carried through as it is.
#[verifier::external_type_specification]
#[verifier::external_body]
pub struct ExSyntaxReference(SyntaxReference);

/// syntect's set of themes, carried through as it is.
#[verifier::external_type_specification]
#[verifier::external_body]
pub struct ExThemeSet(ThemeSet);

/// One theme, carried through as it is.
#[verifier::external_type_specification]
#[verifier::external_body]
pub struct ExTheme(Theme);

/// syntect's `Highlighter`, a theme prepared for use, carried through as
/// it is.
#[verifier::external_type_specification]
#[verifier::external_body]
pub struct ExHighlighter<'a>(Highlighter<'a>);

/// syntect's `HighlightState`, the style stack of a highlighting run,
/// carried through as it is.
#[verifier::external_type_specification]
#[verifier::external_body]
pub struct ExHighlightState(HighlightState);

/// syntect's `ParseState`, the context stack of a parse, carried through
/// as it is.
#[verifier::external_type_specification]
#[verifier::external_body]
pub struct ExParseState(ParseState);

/// The file extensions that the syntaxes of a set list.
pub uninterp spec fn syntax_extensions(set: SyntaxSet) -> Set<Seq<char>>;

/// The names under which a set holds its themes: the keys of its `themes`
/// map.
pub uninterp spec fn theme_names(set: ThemeSet) -> Set<Seq<char>>;

/// Whether a set is linked as syntect's loader and builder link one: every
/// syntax of it has the start contexts that the loader adds to each
/// definition, and every reference to a context points into the set.
pub uninterp spec fn well_linked(set: SyntaxSet) -> bool;

/// The syntax that `SyntaxSet::find_syntax_by_extension` finds in a set
/// for an extension that the set lists.
pub uninterp spec fn syntax_for(set: SyntaxSet, extension: Seq<char>) -> SyntaxReference;

/// The theme that a set holds under a name that is one of its keys.
pub uninterp spec fn theme_for(set: ThemeSet, name: Seq<char>) -> Theme;

/// What `Highlighter::new` makes of a theme.
pub uninterp spec fn prepared(theme: Theme) -> Highlighter<'static>;

/// The parse state that `ParseState::new` starts a syntax with.
pub uninterp spec fn parse_start(syntax: SyntaxReference) -> ParseState;

/// The style stack that `HighlightState::new` starts with for a
/// highlighter and no scopes.
pub uninterp spec fn style_start(highlighter: Highlighter<'_>) -> HighlightState;

/// The pieces of a line, each with its text and colour, that parsing and
/// highlighting the line give from the two states of a pass.
pub uninterp spec fn line_pieces(
    parse: ParseState,
    style: HighlightState,
    highlighter: Highlighter<'_>,
    set: SyntaxSet,
    line: Seq<char>,
) -> Seq<(Seq<char>, Color)>;

/// The parse state after `ParseState::parse_line` has parsed a line.
pub uninterp spec fn parse_after(parse: ParseState, set: SyntaxSet, line: Seq<char>) -> ParseState;

/// The style stack after `RangedHighlightIterator` has walked the line
/// that was parsed from the given parse state.
pub uninterp spec fn style_after(
    parse: ParseState,
    style: HighlightState,
    highlighter: Highlighter<'_>,
    set: SyntaxSet,
    line: Seq<char>,
) -> HighlightState;

/// `SyntaxSet::load_defaults_newlines` unpacks the syntax definitions that
/// syntect ships. Its documentation looks the Rust syntax up in this set
/// by the extension `rs`, so the set lists that extension. The set was made
/// by syntect's loader and builder, so it is linked as they link one.
pub assume_specification[ SyntaxSet::load_defaults_newlines ]() -> (set: SyntaxSet)
    ensures
        syntax_extensions(set).contains("rs"@),
        well_linked(set),
;

/// `ThemeSet::load_defaults` unpacks the themes that syntect ships. Its
/// documentation lists the keys of the set, `Solarized (dark)` among them.
pub assume_specification[ ThemeSet::load_defaults ]() -> (set: ThemeSet)
    ensures
        theme_names(set).contains("Solarized (dark)"@),
;

/// `Highlighter::new` prepares a theme for highlighting: it sorts the
/// theme's rules by their selectors. What it gives depends on the theme
/// alone.
pub assume_specification<'a>[ Highlighter::<'a>::new ](theme: &'a Theme) -> (highlighter:
    Highlighter<'a>)
    ensures
        highlighter == prepared(*theme),
;

/// `ParseState::new` starts a parse at the start context of a syntax, which
/// the syntax must have: it has if it was found in a set that is linked as
/// syntect links one. What it gives depends on the syntax alone.
pub assume_specification[ ParseState::new ](syntax: &SyntaxReference) -> (state: ParseState)
    requires
        exists|set: SyntaxSet, extension: Seq<char>|
            well_linked(set) && syntax_extensions(set).contains(extension) && *syntax
                == syntax_for(set, extension),
    ensures
        state == parse_start(*syntax),
;

/// `HighlightState::new`, given a scope stack with nothing on it from
/// `ScopeStack::new`: the style stack starts from the highlighter's default
/// style alone.
#[verifier::external_body]
fn fresh_style(highlighter: &Highlighter<'_>) -> (state: HighlightState)
    ensures
        state == style_start(*highlighter),
{
    HighlightState::new(highlighter, ScopeStack::new())
}

/// `SyntaxSet::find_syntax_by_extension` searches the set for a syntax that
/// lists the extension, and finds one exactly if some syntax of the set
/// lists it; this hands out a copy of the one found.
#[verifier::external_body]
fn find_syntax(set: &SyntaxSet, extension: &str) -> (syntax: Option<SyntaxReference>)
    ensures
        syntax.is_some() == syntax_extensions(*set).contains(extension@),
        syntax matches Some(found) ==> found == syntax_for(*set, extension@),
{
    set.find_syntax_by_extension(extension).cloned()
}

/// Looks a theme up by its name in the `themes` map of a `ThemeSet`, which
/// holds one exactly if the name is one of its keys, and hands out a copy.
#[verifier::external_body]
fn find_theme(set: &ThemeSet, name: &str) -> (theme: Option<Theme>)
    ensures
        theme.is_some() == theme_names(*set).contains(name@),
        theme matches Some(found) ==> found == theme_for(*set, name@),
{
    set.themes.get(name).cloned()
}

/// Parses one line with `ParseState::parse_line` and walks
/// `RangedHighlightIterator` over the operations that come back, keeping of
/// each item its text and the foreground colour of its style.
///
/// The parser gives the operations in the order of their positions; the
/// iterator cuts the line at those positions and skips empty cuts, so the
/// texts are not empty and, one after the other, spell the line. The
/// pieces and the two states afterwards depend on nothing but the two
/// states before, the highlighter, the set and the line. The states must be
/// those of one pass over some lines with a syntax of the given set, which
/// must be linked as syntect links one, and the highlighter that of the
/// pass.
#[verifier::external_body]
fn styled_pieces(
    parse_state: &mut ParseState,
    highlight_state: &mut HighlightState,
    highlighter: &Highlighter<'_>,
    syntax_set: &SyntaxSet,
    line: &str,
) -> (pieces: Vec<Piece>)
    requires
        exists|grammar: Grammar, above: Seq<Seq<char>>|
            grammar.wf() && grammar.syntax_set == *syntax_set && *highlighter == prepared(
                grammar.theme,
            ) && *old(parse_state) == grammar.parse_state_after(above) && *old(highlight_state)
                == grammar.style_state_after(above),
    ensures
        pieces_view(pieces@) == line_pieces(
            *old(parse_state),
            *old(highlight_state),
            *highlighter,
            *syntax_set,
            line@,
        ),
        *final(parse_state) == parse_after(*old(parse_state), *syntax_set, line@),
        *final(highlight_state) == style_after(
            *old(parse_state),
            *old(highlight_state),
            *highlighter,
            *syntax_set,
            line@,
        ),
        pieces_text(pieces_view(pieces@)) == line@,
        forall|i: int| 0 <= i < pieces@.len() ==> (#[trigger] pieces@[i]).text@.len() > 0,
{
    let ops = parse_state.parse_line(line, syntax_set);
    RangedHighlightIterator::new(highlight_state, &ops[..], line, highlighter)
        .map(|(style, text, _)| {
            let c = style.foreground;
            Piece { text: text.to_owned(), color: Color { r: c.r, g: c.g, b: c.b, a: c.a } }
        })
        .collect()
}

/// The syntax definitions and the theme that a document is highlighted
/// with: the set of syntaxes that syntect ships, the one of them that was
/// picked by a file extension, and a theme that was picked by its name.
pub struct Grammar {
    syntax_set: SyntaxSet,
    syntax: SyntaxReference,
    theme: Theme,
    extension: Ghost<Seq<char>>,
    theme_set: Ghost<ThemeSet>,
    theme_name: Ghost<Seq<char>>,
}

impl Grammar {
    /// The set of syntaxes that the grammar parses with.
    pub closed spec fn syntax_set(&self) -> SyntaxSet {
        self.syntax_set
    }

    /// The set of themes that the grammar's theme was picked from.
    pub closed spec fn theme_set(&self) -> ThemeSet {
        self.theme_set@
    }

    /// The invariant of a grammar: its set of syntaxes is linked as syntect
    /// links one and lists the grammar's extension, and its syntax is the
    /// one that the set has for that extension; its set of themes holds
    /// the grammar's theme name, and its theme is the one of that name.
    pub closed spec fn wf(&self) -> bool {
        &&& well_linked(self.syntax_set)
        &&& syntax_extensions(self.syntax_set).contains(self.extension@)
        &&& self.syntax == syntax_for(self.syntax_set, self.extension@)
        &&& theme_names(self.theme_set@).contains(self.theme_name@)
        &&& self.theme == theme_for(self.theme_set@, self.theme_name@)
    }

    /// The file extension by which the grammar's syntax was picked.
    pub closed spec fn extension(&self) -> Seq<char> {
        self.extension@
    }

    /// The name by which the grammar's theme was picked.
    pub closed spec fn theme_name(&self) -> Seq<char> {
        self.theme_name@
    }

    /// The parse state of a pass that has been fed the given lines.
    pub closed spec fn parse_state_after(&self, lines: Seq<Seq<char>>) -> ParseState
        decreases lines.len(),
    {
        if lines.len() == 0 {
            parse_start(self.syntax)
        } else {
            parse_after(self.parse_state_after(lines.drop_last()), self.syntax_set, lines.last())
        }
    }

    /// The style stack of a pass that has been fed the given lines.
    pub closed spec fn style_state_after(&self, lines: Seq<Seq<char>>) -> HighlightState
        decreases lines.len(),
    {
        if lines.len() == 0 {
            style_start(prepared(self.theme))
        } else {
            style_after(
                self.parse_state_after(lines.drop_last()),
                self.style_state_after(lines.drop_last()),
                prepared(self.theme),
                self.syntax_set,
                lines.last(),
            )
        }
    }

    /// The runs of a line that stands below the given lines of a document.
    pub closed spec fn line_runs(&self, above: Seq<Seq<char>>, line: Seq<char>) -> Seq<Run> {
        runs_of(
            line_pieces(
                self.parse_state_after(above),
                self.style_state_after(above),
                prepared(self.theme),
                self.syntax_set,
                line,
            ),
        )
    }

    /// The highlight index of a document: for each line, its runs below the
    /// lines that stand above it.
    pub open spec fn document_runs(&self, lines: Seq<Seq<char>>) -> Seq<Seq<Run>> {
        Seq::new(lines.len(), |i: int| self.line_runs(lines.take(i), lines[i]))
    }

    /// Picks from a set of syntaxes the one for a file extension, and from
    /// a set of themes the one of a name. `None` if the syntaxes list no
    /// such extension or the themes hold no such name.
    fn select(
        syntax_set: SyntaxSet,
        theme_set: &ThemeSet,
        extension: &str,
        theme_name: &str,
    ) -> (grammar: Option<Grammar>)
        requires
            well_linked(syntax_set),
        ensures
            grammar.is_some() == (syntax_extensions(syntax_set).contains(extension@)
                && theme_names(*theme_set).contains(theme_name@)),
            grammar matches Some(g) ==> {
                &&& g.wf()
                &&& g.syntax_set() == syntax_set
                &&& g.theme_set() == *theme_set
                &&& g.extension() == extension@
                &&& g.theme_name() == theme_name@
            },
    {
        match find_syntax(&syntax_set, extension) {
            Some(syntax) => match find_theme(theme_set, theme_name) {
                Some(theme) => Some(
                    Grammar {
                        syntax_set,
                        syntax,
                        theme,
                        extension: Ghost(extension@),
                        theme_set: Ghost(*theme_set),
                        theme_name: Ghost(theme_name@),
                    },
                ),
                None => None,
            },
            None => None,
        }
    }

    /// Loads the syntaxes and themes that syntect ships and picks the Rust
    /// syntax, by the extension `rs`, and the dark Solarized theme.
    pub fn load() -> (grammar: Grammar)
        ensures
            grammar.wf(),
            grammar.extension() == "rs"@,
            grammar.theme_name() == "Solarized (dark)"@,
    {
        let syntax_set = SyntaxSet::load_defaults_newlines();
        let theme_set = ThemeSet::load_defaults();
        match Grammar::select(syntax_set, &theme_set, "rs", "Solarized (dark)") {
            Some(grammar) => grammar,
            None => vstd::pervasive::unreached(),
        }
    }
}

/// The run lists of the first lines of a document depend on those lines
/// alone: two documents that agree on their first `count` lines have the
/// same runs on each of them.
pub proof fn lemma_runs_depend_on_lines_above(
    grammar: Grammar,
    first: Seq<Seq<char>>,
    second: Seq<Seq<char>>,
    count: int,
)
    requires
        0 <= count <= first.len(),
        count <= second.len(),
        first.take(count) == second.take(count),
    ensures
        grammar.document_runs(first).take(count) == grammar.document_runs(second).take(count),
{
    assert forall|i: int| 0 <= i < count implies grammar.document_runs(first)[i]
        == grammar.document_runs(second)[i] by {
        assert(first.take(i) =~= first.take(count).take(i));
        assert(second.take(i) =~= second.take(count).take(i));
        assert(first[i] == first.take(count)[i]);
        assert(second[i] == second.take(count)[i]);
    }
    assert(grammar.document_runs(first).take(count) =~= grammar.document_runs(second).take(
        count,
    ));
}

/// One pass of the highlighter over a document: the parse state and the
/// style stack that carry over from each line to the next, and a record of
/// the lines that the pass has been fed.
pub struct Session<'a> {
    grammar: &'a Grammar,
    highlighter: Highlighter<'a>,
    parse_state: ParseState,
    highlight_state: HighlightState,
    fed: Ghost<Seq<Seq<char>>>,
}

impl<'a> Session<'a> {
    /// The grammar that the pass highlights with.
    pub closed spec fn grammar(&self) -> Grammar {
        *self.grammar
    }

    /// The lines that the pass has been fed so far, first to last.
    pub closed spec fn fed(&self) -> Seq<Seq<char>> {
        self.fed@
    }

    /// The states of the pass are those that its grammar reaches from the
    /// start of a document over the lines that the pass has been fed.
    pub closed spec fn wf(&self) -> bool {
        &&& self.grammar.wf()
        &&& self.highlighter == prepared(self.grammar.theme)
        &&& self.parse_state == self.grammar.parse_state_after(self.fed@)
        &&& self.highlight_state == self.grammar.style_state_after(self.fed@)
    }

    /// Starts a pass with the given grammar at the first line of a
    /// document: no line has been fed yet.
    pub fn begin(grammar: &'a Grammar) -> (session: Session<'a>)
        requires
            grammar.wf(),
        ensures
            session.wf(),
            session.grammar() == *grammar,
            session.fed() == Seq::<Seq<char>>::empty(),
    {
        let highlighter = Highlighter::new(&grammar.theme);
        let highlight_state = fresh_style(&highlighter);
        let parse_state = ParseState::new(&grammar.syntax);
        Session {
            grammar,
            highlighter,
            parse_state,
            highlight_state,
            fed: Ghost(Seq::<Seq<char>>::empty()),
        }
    }

    /// Feeds the next line to the pass and returns its coloured runs.
    pub fn advance_line(&mut self, line: &Vec<char>) -> (runs: Vec<Run>)
        requires
            old(self).wf(),
        ensures
            final(self).wf(),
            final(self).fed() == old(self).fed().push(line@),
            final(self).grammar() == old(self).grammar(),
            runs@ == old(self).grammar().line_runs(old(self).fed(), line@),
            tiles(runs@, line@.len()),
    {
        let text = string_of(line);
        let ghost above = self.fed@;
        let pieces = styled_pieces(
            &mut self.parse_state,
            &mut self.highlight_state,
            &self.highlighter,
            &self.grammar.syntax_set,
            text.as_str(),
        );
        proof {
            assert(line@.len() == line.len());
            lemma_runs_tile(pieces_view(pieces@));
            self.fed@ = above.push(line@);
            assert(above.push(line@).drop_last() =~= above);
        }
        match runs_from_pieces(&pieces) {
            Some(runs) => runs,
            None => vstd::pervasive::unreached(),
        }
    }
}

/// Rebuilds the highlight index of a document: discards what `info` held
/// and runs one highlighting pass over all the lines, first to last.
pub fn generate_highlight_info(lines: &Vec<Vec<char>>, info: &mut Vec<Vec<Run>>, grammar: &Grammar)
    requires
        grammar.wf(),
    ensures
        runs_view(final(info)@) == grammar.document_runs(crate::text::lines_view(lines@)),
        highlights_match(runs_view(final(info)@), crate::text::lines_view(lines@)),
{
    info.clear();
    let ghost document = crate::text::lines_view(lines@);
    let mut session = Session::begin(grammar);
    let mut i: usize = 0;
    while i < lines.len()
        invariant
            0 <= i <= lines.len(),
            document == crate::text::lines_view(lines@),
            info@.len() == i,
            forall|k: int| 0 <= k < i ==> tiles(#[trigger] info@[k]@, lines@[k]@.len()),
            forall|k: int|
                0 <= k < i ==> (#[trigger] info@[k])@ == grammar.line_runs(
                    document.take(k),
                    document[k],
                ),
            session.wf(),
            session.grammar() == *grammar,
            session.fed() == document.take(i as int),
        decreases lines.len() - i,
    {
        let runs = session.advance_line(&lines[i]);
        info.push(runs);
        proof {
            assert(document.take(i as int).push(lines@[i as int]@) =~= document.take(i + 1));
        }
        i += 1;
    }
    proof {
        let index = runs_view(info@);
        assert forall|k: int| 0 <= k < document.len() implies tiles(
            #[trigger] index[k],
            document[k].len(),
        ) by {
            assert(tiles(info@[k]@, lines@[k]@.len()));
        }
        assert(index =~= grammar.document_runs(document));
    }
}

} // verus!
