//! The layout remapper: a character substitution table between two keyboard
//! layouts.  Characters of the source alphabet are replaced by their
//! counterpart in the target alphabet; every other character passes through
//! unchanged.

use crate::text::str_to_chars;
use vstd::prelude::*;

verus! {

/// Ghost form of a layout map: the two alphabets as character sequences.
pub struct LayoutMapView {
    pub from: Seq<char>,
    pub to: Seq<char>,
}

/// Index of the first occurrence of `c` in `s`, or -1 when `c` does not occur.
pub open spec fn find_index(s: Seq<char>, c: char) -> int
    decreases s.len(),
{
    if s.len() == 0 {
        -1
    } else if s[0] == c {
        0
    } else {
        let r = find_index(s.skip(1), c);
        if r == -1 {
            -1
        } else {
            1 + r
        }
    }
}

pub proof fn lemma_find_index(s: Seq<char>, c: char)
    ensures
        (find_index(s, c) == -1) <==> !s.contains(c),
        s.contains(c) ==> 0 <= find_index(s, c) < s.len(),
        s.contains(c) ==> s[find_index(s, c)] == c,
        s.contains(c) ==> forall|j: int| 0 <= j < find_index(s, c) ==> s[j] != c,
    decreases s.len(),
{
    if s.len() == 0 {
        assert(!s.contains(c));
    } else if s[0] == c {
        assert(s.contains(c)) by {
            assert(s[0] == c);
        }
    } else {
        lemma_find_index(s.skip(1), c);
        assert(forall|j: int| 0 <= j < s.skip(1).len() ==> s.skip(1)[j] == s[j + 1]);
        if s.contains(c) {
            let k = choose|k: int| 0 <= k < s.len() && s[k] == c;
            assert(k >= 1);
            assert(s.skip(1)[k - 1] == c);
            assert(s.skip(1).contains(c));
        }
        if s.skip(1).contains(c) {
            let k = choose|k: int| 0 <= k < s.skip(1).len() && s.skip(1)[k] == c;
            assert(s[k + 1] == c);
            assert(s.contains(c));
        }
        if s.contains(c) {
            let fi = find_index(s, c);
            assert(fi == 1 + find_index(s.skip(1), c));
            assert forall|j: int| 0 <= j < fi implies s[j] != c by {
                if j >= 1 {
                    assert(s.skip(1)[j - 1] == s[j]);
                }
            }
        }
    }
}

/// The image of one character under the map: its counterpart when the
/// character is in the source alphabet, the character itself otherwise.
pub open spec fn remap_char(m: LayoutMapView, c: char) -> char {
    if m.from.contains(c) {
        m.to[find_index(m.from, c)]
    } else {
        c
    }
}

/// The image of a whole character sequence, position by position.
pub open spec fn remap_seq(m: LayoutMapView, s: Seq<char>) -> Seq<char> {
    s.map_values(|c: char| remap_char(m, c))
}

/// A substitution table between two equal-length alphabets, immutable once
/// built.
pub struct LayoutMap {
    from: Vec<char>,
    to: Vec<char>,
}

impl View for LayoutMap {
    type V = LayoutMapView;

    closed spec fn view(&self) -> LayoutMapView {
        LayoutMapView { from: self.from@, to: self.to@ }
    }
}

impl LayoutMap {
    /// Both alphabets have the same length, so every source character has a
    /// counterpart.
    pub open spec fn wf(&self) -> bool {
        self@.from.len() == self@.to.len()
    }

    /// Builds the table; construction fails exactly when the two alphabets
    /// differ in length, since the substitution would then be ambiguous.
    pub fn new(from: Vec<char>, to: Vec<char>) -> (r: Option<LayoutMap>)
        ensures
            (r is Some) <==> from@.len() == to@.len(),
            r matches Some(m) ==> m@ == (LayoutMapView { from: from@, to: to@ }) && m.wf(),
    {
        if from.len() == to.len() {
            Some(LayoutMap { from, to })
        } else {
            None
        }
    }

    /// Whether the table is well formed; true for every table built by `new`.
    pub fn is_wf(&self) -> (r: bool)
        ensures
            r == self.wf(),
    {
        self.from.len() == self.to.len()
    }

    /// The counterpart of one character.
    pub fn map_char(&self, c: char) -> (r: char)
        requires
            self.wf(),
        ensures
            r == remap_char(self@, c),
    {
        let mut i: usize = 0;
        while i < self.from.len()
            invariant
                self.wf(),
                i <= self@.from.len(),
                forall|j: int| 0 <= j < i ==> self@.from[j] != c,
            decreases self@.from.len() - i,
        {
            if self.from[i] == c {
                proof {
                    assert(self@.from.contains(c)) by {
                        assert(self@.from[i as int] == c);
                    }
                    lemma_find_index(self@.from, c);
                    assert(find_index(self@.from, c) == i as int);
                }
                return self.to[i];
            }
            i += 1;
        }
        proof {
            if self@.from.contains(c) {
                let k = choose|k: int| 0 <= k < self@.from.len() && self@.from[k] == c;
                assert(false);
            }
        }
        c
    }

    /// Replaces every source-alphabet character of `text` by its counterpart;
    /// all other characters pass through unchanged.  The character count is
    /// preserved.
    pub fn remap(&self, text: &Vec<char>) -> (r: Vec<char>)
        requires
            self.wf(),
        ensures
            r@ == remap_seq(self@, text@),
            r@.len() == text@.len(),
    {
        let mut r: Vec<char> = Vec::new();
        let mut i: usize = 0;
        while i < text.len()
            invariant
                self.wf(),
                i <= text@.len(),
                r@ == remap_seq(self@, text@.take(i as int)),
            decreases text@.len() - i,
        {
            r.push(self.map_char(text[i]));
            proof {
                assert(r@ =~= remap_seq(self@, text@.take(i + 1)));
            }
            i += 1;
        }
        proof {
            assert(text@.take(text@.len() as int) =~= text@);
        }
        r
    }
}

/// The Latin-layout alphabet of the stock table, key by key.
pub open spec fn latin_alphabet() -> Seq<char> {
    "qwertyuiop[]asdfghjkl;'zxcvbnm,./?`&"@
}

/// The Cyrillic-layout alphabet of the stock table, key by key.
pub open spec fn cyrillic_alphabet() -> Seq<char> {
    "йцукенгшщзхъфывапролджэячсмитьбю.,ё?"@
}

/// The stock table: what each Latin-layout key produces when the Cyrillic
/// layout was intended.
pub open spec fn default_layout() -> LayoutMapView {
    LayoutMapView { from: latin_alphabet(), to: cyrillic_alphabet() }
}

/// The Latin-layout alphabet as a character vector.
pub fn latin_chars() -> (r: Vec<char>)
    ensures
        r@ == latin_alphabet(),
{
    str_to_chars("qwertyuiop[]asdfghjkl;'zxcvbnm,./?`&")
}

/// The Cyrillic-layout alphabet as a character vector.
pub fn cyrillic_chars() -> (r: Vec<char>)
    ensures
        r@ == cyrillic_alphabet(),
{
    str_to_chars("йцукенгшщзхъфывапролджэячсмитьбю.,ё?")
}

/// Builds the stock table; the two alphabets are equally long, so this always
/// succeeds.
pub fn default_layout_map() -> (r: LayoutMap)
    ensures
        r.wf(),
        r@ == default_layout(),
{
    let from = latin_chars();
    let to = cyrillic_chars();
    proof {
        reveal_strlit("qwertyuiop[]asdfghjkl;'zxcvbnm,./?`&");
        reveal_strlit("йцукенгшщзхъфывапролджэячсмитьбю.,ё?");
        assert(latin_alphabet().len() == 36);
        assert(cyrillic_alphabet().len() == 36);
    }
    let r = LayoutMap::new(from, to);
    match r {
        Some(m) => m,
        None => vstd::pervasive::unreached(),
    }
}

/// Rewrites text typed on the Latin layout into the Cyrillic characters the
/// same keys would have produced.
pub fn fix_layout(src: &Vec<char>) -> (r: Vec<char>)
    ensures
        r@ == remap_seq(default_layout(), src@),
        r@.len() == src@.len(),
{
    let m = default_layout_map();
    m.remap(src)
}

/// Law: remapping never changes the character count.
pub proof fn lemma_remap_preserves_len(m: LayoutMapView, s: Seq<char>)
    ensures
        remap_seq(m, s).len() == s.len(),
{
}

/// Law: a position whose remapped character lies outside the source alphabet
/// is left alone by a second pass, so repeated remapping can only disturb
/// characters that both alphabets share.
pub proof fn lemma_remap_second_pass_fixes(m: LayoutMapView, s: Seq<char>, i: int)
    requires
        0 <= i < s.len(),
        !m.from.contains(remap_seq(m, s)[i]),
    ensures
        remap_seq(m, remap_seq(m, s))[i] == remap_seq(m, s)[i],
{
}

/// Law: a second remapping pass can differ from the first only at positions
/// whose character lies in both alphabets: in the source alphabet (or the
/// pass would leave it alone) and in the target alphabet (being itself the
/// image of a source character).
pub proof fn lemma_remap_changes_only_shared(m: LayoutMapView, s: Seq<char>, i: int)
    requires
        m.from.len() == m.to.len(),
        0 <= i < s.len(),
        remap_seq(m, remap_seq(m, s))[i] != remap_seq(m, s)[i],
    ensures
        m.from.contains(remap_seq(m, s)[i]),
        m.to.contains(remap_seq(m, s)[i]),
{
    let t = remap_seq(m, s);
    assert(m.from.contains(t[i]));
    if m.from.contains(s[i]) {
        lemma_find_index(m.from, s[i]);
        assert(m.to.contains(t[i])) by {
            assert(t[i] == m.to[find_index(m.from, s[i])]);
        }
    } else {
        assert(t[i] == s[i]);
    }
}

/// Law: when the target alphabet is disjoint from the source alphabet,
/// remapping is idempotent.
pub proof fn lemma_remap_idempotent(m: LayoutMapView, s: Seq<char>)
    requires
        m.from.len() == m.to.len(),
        forall|c: char| m.to.contains(c) ==> !m.from.contains(c),
    ensures
        remap_seq(m, remap_seq(m, s)) == remap_seq(m, s),
{
    let t = remap_seq(m, s);
    assert forall|i: int| 0 <= i < t.len() implies remap_char(m, t[i]) == t[i] by {
        if m.from.contains(s[i]) {
            lemma_find_index(m.from, s[i]);
            assert(m.to.contains(t[i])) by {
                assert(t[i] == m.to[find_index(m.from, s[i])]);
            }
        }
    }
    assert(remap_seq(m, t) =~= t);
}

} // verus!
