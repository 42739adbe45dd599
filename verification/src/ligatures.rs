//! Programming ligatures.
use vstd::prelude::*;

use crate::text::{stands_at, text_at};

verus! {

/// Characters that are drawn as one glyph.
#[derive(Debug)]
pub struct Ligature {
    /// The characters.
    pub sequence: String,
    /// The glyph, where there is one.
    pub glyph: Option<char>,
    /// How many characters it takes the place of.
    pub width: usize,
}

/// What a ligature holds.
pub struct LigatureState {
    pub sequence: Seq<char>,
    pub glyph: Option<char>,
    pub width: int,
}

impl View for Ligature {
    type V = LigatureState;

    open spec fn view(&self) -> LigatureState {
        LigatureState {
            sequence: self.sequence@,
            glyph: self.glyph,
            width: self.width as int,
        }
    }
}

impl Clone for Ligature {
    fn clone(&self) -> (r: Self)
        ensures
            r@ == self@,
    {
        Ligature { sequence: self.sequence.clone(), glyph: self.glyph, width: self.width }
    }
}

/// A ligature of the table.
pub open spec fn ligature(sequence: &str, glyph: Option<char>, width: int) -> LigatureState {
    LigatureState { sequence: sequence@, glyph, width }
}

/// The known ligatures, the longest first.
pub open spec fn ligature_table() -> Seq<LigatureState> {
    seq![
        ligature("<->", Some('\u{2194}'), 3),
        ligature("=>>", Some('\u{21a0}'), 3),
        ligature("<<-", Some('\u{219e}'), 3),
        ligature("=/=", Some('\u{2262}'), 3),
        ligature("!==", Some('\u{2262}'), 3),
        ligature("...", Some('\u{22ef}'), 3),
        ligature("::=", Some('\u{2a74}'), 3),
        ligature("=>", Some('\u{21d2}'), 2),
        ligature("->", Some('\u{2192}'), 2),
        ligature("<-", Some('\u{2190}'), 2),
        ligature("==", Some('\u{2261}'), 2),
        ligature("!=", Some('\u{2260}'), 2),
        ligature("<=", Some('\u{2264}'), 2),
        ligature(">=", Some('\u{2265}'), 2),
        ligature("&&", Some('\u{2227}'), 2),
        ligature("||", Some('\u{2228}'), 2),
        ligature("!!", Some('\u{203c}'), 2),
        ligature("::", Some('\u{2237}'), 2),
        ligature("..", Some('\u{2026}'), 2),
        ligature(":=", Some('\u{2254}'), 2),
        ligature("//", Some('\u{2afd}'), 2),
        ligature("/*", None, 2),
        ligature("*/", None, 2),
    ]
}

/// The index of the first ligature of `table`, from `i` on, that stands in
/// `chars` at `pos`; the length where there is none.
pub open spec fn first_at(table: Seq<LigatureState>, i: int, chars: Seq<char>, pos: int) -> int
    decreases table.len() - i,
{
    if i < 0 || i >= table.len() || stands_at(chars, pos, table[i].sequence) {
        i
    } else {
        first_at(table, i + 1, chars, pos)
    }
}

/// The views of a list of ligatures.
pub open spec fn ligature_views(v: Seq<Ligature>) -> Seq<LigatureState> {
    Seq::new(v.len(), |i: int| v[i]@)
}

/// Finds ligatures in text.
#[derive(Debug)]
pub struct LigatureDetector {
    ligatures: Vec<Ligature>,
}

impl View for LigatureDetector {
    type V = Seq<LigatureState>;

    closed spec fn view(&self) -> Seq<LigatureState> {
        ligature_views(self.ligatures@)
    }
}

proof fn first_at_bounds(table: Seq<LigatureState>, i: int, chars: Seq<char>, pos: int)
    requires
        0 <= i <= table.len(),
    ensures
        i <= first_at(table, i, chars, pos) <= table.len(),
        first_at(table, i, chars, pos) < table.len() ==> stands_at(
            chars,
            pos,
            table[first_at(table, i, chars, pos)].sequence,
        ),
        forall|k: int|
            i <= k < first_at(table, i, chars, pos) ==> !stands_at(
                chars,
                pos,
                #[trigger] table[k].sequence,
            ),
    decreases table.len() - i,
{
    if i < table.len() && !stands_at(chars, pos, table[i].sequence) {
        first_at_bounds(table, i + 1, chars, pos);
    }
}

/// The ligature that is found is the longest of those that stand at the
/// position.
pub proof fn longest_ligature_first(chars: Seq<char>, pos: int, k: int)
    requires
        0 <= k < ligature_table().len(),
        stands_at(chars, pos, ligature_table()[k].sequence),
    ensures
        first_at(ligature_table(), 0, chars, pos) < ligature_table().len(),
        ligature_table()[first_at(ligature_table(), 0, chars, pos)].width
            >= ligature_table()[k].width,
{
    let t = ligature_table();
    first_at_bounds(t, 0, chars, pos);
    let f = first_at(t, 0, chars, pos);
    if f > k {
        assert(!stands_at(chars, pos, t[k].sequence));
    }
    assert(forall|i: int, j: int| 0 <= i <= j < t.len() ==> t[i].width >= t[j].width);
}

fn put_ligature(v: &mut Vec<Ligature>, sequence: &str, glyph: Option<char>, width: usize)
    ensures
        ligature_views(final(v)@) == ligature_views(old(v)@).push(
            ligature(sequence, glyph, width as int),
        ),
{
    let ghost before = v@;
    v.push(Ligature { sequence: sequence.to_owned(), glyph, width });
    proof {
        assert(ligature_views(v@) =~= ligature_views(before).push(
            ligature(sequence, glyph, width as int),
        ));
    }
}

impl LigatureDetector {
    /// A detector of the known ligatures.
    pub fn new() -> (r: Self)
        ensures
            r@ == ligature_table(),
    {
        let mut v: Vec<Ligature> = Vec::new();
        proof {
            assert(ligature_views(v@) =~= Seq::empty());
        }
        put_ligature(&mut v, "<->", Some('\u{2194}'), 3);
        put_ligature(&mut v, "=>>", Some('\u{21a0}'), 3);
        put_ligature(&mut v, "<<-", Some('\u{219e}'), 3);
        put_ligature(&mut v, "=/=", Some('\u{2262}'), 3);
        put_ligature(&mut v, "!==", Some('\u{2262}'), 3);
        put_ligature(&mut v, "...", Some('\u{22ef}'), 3);
        put_ligature(&mut v, "::=", Some('\u{2a74}'), 3);
        put_ligature(&mut v, "=>", Some('\u{21d2}'), 2);
        put_ligature(&mut v, "->", Some('\u{2192}'), 2);
        put_ligature(&mut v, "<-", Some('\u{2190}'), 2);
        put_ligature(&mut v, "==", Some('\u{2261}'), 2);
        put_ligature(&mut v, "!=", Some('\u{2260}'), 2);
        put_ligature(&mut v, "<=", Some('\u{2264}'), 2);
        put_ligature(&mut v, ">=", Some('\u{2265}'), 2);
        put_ligature(&mut v, "&&", Some('\u{2227}'), 2);
        put_ligature(&mut v, "||", Some('\u{2228}'), 2);
        put_ligature(&mut v, "!!", Some('\u{203c}'), 2);
        put_ligature(&mut v, "::", Some('\u{2237}'), 2);
        put_ligature(&mut v, "..", Some('\u{2026}'), 2);
        put_ligature(&mut v, ":=", Some('\u{2254}'), 2);
        put_ligature(&mut v, "//", Some('\u{2afd}'), 2);
        put_ligature(&mut v, "/*", None, 2);
        put_ligature(&mut v, "*/", None, 2);
        let r = LigatureDetector { ligatures: v };
        proof {
            assert(r@ =~= ligature_table());
        }
        r
    }

    /// The ligature that stands in `chars` at `pos`.
    pub fn detect(&mut self, chars: &[char], pos: usize) -> (r: Option<Ligature>)
        ensures
            final(self)@ == old(self)@,
            match r {
                Some(l) => {
                    let i = first_at(old(self)@, 0, chars@, pos as int);
                    pos < chars@.len() && i < old(self)@.len() && l@ == old(self)@[i]
                },
                None => pos < chars@.len() ==> first_at(old(self)@, 0, chars@, pos as int)
                    == old(self)@.len(),
            },
    {
        if pos >= chars.len() {
            return None;
        }
        let ghost table = self@;
        let mut i: usize = 0;
        while i < self.ligatures.len()
            invariant
                i <= self.ligatures@.len(),
                table == self@,
                table == ligature_views(self.ligatures@),
                pos < chars@.len(),
                first_at(table, 0, chars@, pos as int) == first_at(
                    table,
                    i as int,
                    chars@,
                    pos as int,
                ),
            decreases self.ligatures@.len() - i,
        {
            let l = &self.ligatures[i];
            proof {
                assert(table[i as int] == l@);
            }
            if text_at(chars, pos, l.sequence.as_str()) {
                return Some(l.clone());
            }
            i += 1;
        }
        None
    }

    /// True when the configuration asks for ligatures.
    pub fn is_enabled(config_ligatures: bool) -> (r: bool)
        ensures
            r == config_ligatures,
    {
        config_ligatures
    }
}

impl Default for LigatureDetector {
    fn default() -> (r: Self)
        ensures
            r@ == ligature_table(),
    {
        Self::new()
    }
}

/// A ligature is drawn as wide as the characters that it stands for, and what is
/// found stands in the text.
pub proof fn ligatures_are_as_wide_as_their_text(chars: Seq<char>, pos: int)
    requires
        0 <= pos < chars.len(),
        first_at(ligature_table(), 0, chars, pos) < ligature_table().len(),
    ensures
        ({
            let l = ligature_table()[first_at(ligature_table(), 0, chars, pos)];
            &&& l.width == l.sequence.len()
            &&& pos + l.width <= chars.len()
            &&& forall|i: int| 0 <= i < l.width ==> chars[pos + i] == #[trigger] l.sequence[i]
        }),
{
    let t = ligature_table();
    let f = first_at(t, 0, chars, pos);
    first_at_bounds(t, 0, chars, pos);
    table_widths(f);
    let l = t[f];
    assert forall|i: int| 0 <= i < l.width implies chars[pos + i] == #[trigger] l.sequence[i] by {
        assert(chars.subrange(pos, pos + l.sequence.len())[i] == l.sequence[i]);
    }
}

proof fn table_widths(k: int)
    requires
        0 <= k < ligature_table().len(),
    ensures
        ligature_table()[k].width == ligature_table()[k].sequence.len(),
{
    reveal_strlit("<->");
    reveal_strlit("=>>");
    reveal_strlit("<<-");
    reveal_strlit("=/=");
    reveal_strlit("!==");
    reveal_strlit("...");
    reveal_strlit("::=");
    reveal_strlit("=>");
    reveal_strlit("->");
    reveal_strlit("<-");
    reveal_strlit("==");
    reveal_strlit("!=");
    reveal_strlit("<=");
    reveal_strlit(">=");
    reveal_strlit("&&");
    reveal_strlit("||");
    reveal_strlit("!!");
    reveal_strlit("::");
    reveal_strlit("..");
    reveal_strlit(":=");
    reveal_strlit("//");
    reveal_strlit("/*");
    reveal_strlit("*/");
}

} // verus!
