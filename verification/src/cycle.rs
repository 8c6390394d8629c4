//! Stepping forward and backward through the list of themes (F8, Shift-F8)
//! and of fonts (F7, Shift-F7).

use vstd::prelude::*;

verus! {

/// `i` is the first position of the list that holds `x`.
pub open spec fn is_first_match(list: Seq<String>, x: Seq<char>, i: int) -> bool {
    &&& 0 <= i < list.len()
    &&& list[i]@ == x
    &&& forall|j: int| 0 <= j < i ==> list[j]@ != x
}

/// Position of the current entry in the list: the first position that holds
/// it, or 0 when the list does not hold it.
pub open spec fn current_index(list: Seq<String>, x: Seq<char>) -> int {
    if exists|i: int| is_first_match(list, x, i) {
        choose|i: int| is_first_match(list, x, i)
    } else {
        0
    }
}

/// The position after `p`, wrapping around to the first.
pub open spec fn next_index(len: int, p: int) -> int {
    if p + 1 < len {
        p + 1
    } else {
        0
    }
}

/// The position before `p`, wrapping around to the last.
pub open spec fn prev_index(len: int, p: int) -> int {
    if p > 0 {
        p - 1
    } else {
        len - 1
    }
}

/// The position the font list steps back to from `p`: the one before, except
/// from the first two positions, which both wrap around to the last.
pub open spec fn prev_font_index_of(len: int, p: int) -> int {
    if p > 1 {
        p - 1
    } else {
        len - 1
    }
}

/// No name occurs twice in the list.
pub open spec fn distinct_names(list: Seq<String>) -> bool {
    forall|i: int, j: int| 0 <= i < list.len() && 0 <= j < list.len() && i != j ==> list[i]@ != list[j]@
}

proof fn lemma_first_match_unique(list: Seq<String>, x: Seq<char>, i: int, j: int)
    requires
        is_first_match(list, x, i),
        is_first_match(list, x, j),
    ensures
        i == j,
{
}

/// In a list without repeated names, the current position of the name at
/// position `i` is `i`.
pub proof fn lemma_current_index_of_member(list: Seq<String>, i: int)
    requires
        distinct_names(list),
        0 <= i < list.len(),
    ensures
        current_index(list, list[i]@) == i,
{
    assert(is_first_match(list, list[i]@, i));
    let c = choose|c: int| is_first_match(list, list[i]@, c);
    lemma_first_match_unique(list, list[i]@, i, c);
}

/// Position of `x` in the list, or 0 when it is not there.
pub fn position_or_first(list: &Vec<String>, x: &String) -> (p: usize)
    ensures
        p == current_index(list@, x@),
        list.len() > 0 ==> p < list.len(),
{
    let mut i: usize = 0;
    while i < list.len()
        invariant
            i <= list.len(),
            forall|j: int| 0 <= j < i ==> list@[j]@ != x@,
        decreases list.len() - i,
    {
        if list[i] == *x {
            proof {
                assert(is_first_match(list@, x@, i as int));
                let c = choose|c: int| is_first_match(list@, x@, c);
                lemma_first_match_unique(list@, x@, i as int, c);
            }
            return i;
        }
        i = i + 1;
    }
    proof {
        assert(!exists|c: int| is_first_match(list@, x@, c));
    }
    0
}

/// The theme after the current one (F8): the position after the current
/// theme's, wrapping around; from a theme that is not in the list, the second.
pub fn next_theme_index(themes: &Vec<String>, current: &String) -> (p: usize)
    requires
        themes.len() > 0,
    ensures
        p == next_index(themes.len() as int, current_index(themes@, current@)),
        p < themes.len(),
{
    let idx = position_or_first(themes, current);
    if idx + 1 < themes.len() {
        idx + 1
    } else {
        0
    }
}

/// The theme before the current one (Shift-F8): the position before the
/// current theme's, wrapping around; from a theme that is not in the list,
/// the last.
pub fn prev_theme_index(themes: &Vec<String>, current: &String) -> (p: usize)
    requires
        themes.len() > 0,
    ensures
        p == prev_index(themes.len() as int, current_index(themes@, current@)),
        p < themes.len(),
{
    let idx = position_or_first(themes, current);
    if idx > 0 {
        idx - 1
    } else {
        themes.len() - 1
    }
}

/// The font after the current one (F7), in the same way as for themes.
pub fn next_font_index(fonts: &Vec<String>, current: &String) -> (p: usize)
    requires
        fonts.len() > 0,
    ensures
        p == next_index(fonts.len() as int, current_index(fonts@, current@)),
        p < fonts.len(),
{
    let idx = position_or_first(fonts, current);
    if idx + 1 < fonts.len() {
        idx + 1
    } else {
        0
    }
}

/// The font before the current one (Shift-F7): the position before the
/// current font's, except that both the first and the second font step back
/// to the last one.
pub fn prev_font_index(fonts: &Vec<String>, current: &String) -> (p: usize)
    requires
        fonts.len() > 0,
    ensures
        p == prev_font_index_of(fonts.len() as int, current_index(fonts@, current@)),
        p < fonts.len(),
{
    let idx = position_or_first(fonts, current);
    if idx > 1 {
        idx - 1
    } else {
        fonts.len() - 1
    }
}

/// The names of the predefined themes, in the order the theme crate
/// (rat-theme4) lists them.
pub open spec fn salsa_theme_list() -> Seq<Seq<char>> {
    seq![
        "Imperial"@,
        "Black&White"@,
        "EverForest"@,
        "Embark"@,
        "FalconDark"@,
        "Gatekeeper"@,
        "Material"@,
        "Monekai"@,
        "Monochrome"@,
        "Nord"@,
        "Ocean"@,
        "OxoCarbon"@,
        "Radium"@,
        "Reds"@,
        "Rust"@,
        "Solarized"@,
        "Tailwind"@,
        "Tundra"@,
        "VSCode"@,
        "Imperial Light"@,
        "Blossom Light"@,
        "EverForest Light"@,
        "Gatekeeper Light"@,
        "Embark Light"@,
        "Rust Light"@,
        "SunriseBreeze Light"@,
        "Tailwind Light"@,
        "Imperial Shell"@,
        "Black&White Shell"@,
        "EverForest Shell"@,
        "Embark Shell"@,
        "Gatekeeper Shell"@,
        "Material Shell"@,
        "Monekai Shell"@,
        "Monochrome Shell"@,
        "Nord Shell"@,
        "Ocean Shell"@,
        "OxoCarbon Shell"@,
        "Radium Shell"@,
        "Reds Shell"@,
        "Rust Shell"@,
        "Solarized Shell"@,
        "Tailwind Shell"@,
        "Tundra Shell"@,
        "VSCode Shell"@,
        "Shell"@,
        "Blackout"@,
        "Fallback"@,
    ]
}

/// The names held by a list of texts.
pub open spec fn name_views(list: Seq<String>) -> Seq<Seq<char>> {
    list.map_values(|s: String| s@)
}

/// A list that holds the predefined theme names has 48 entries.
proof fn lemma_theme_list_len(list: Seq<String>)
    requires
        name_views(list) == salsa_theme_list(),
    ensures
        list.len() == 48,
{
    assert(name_views(list).len() == list.len());
}

/// The names of the predefined themes, from `rat_theme4::salsa_themes`.
/// Its source copies them, in order, out of a constant list of 48 names, no
/// two of which are the same.
#[verifier::external_body]
fn salsa_theme_names() -> (names: Vec<String>)
    ensures
        name_views(names@) == salsa_theme_list(),
        distinct_names(names@),
{
    rat_theme4::salsa_themes().into_iter().map(|s| s.to_string()).collect()
}

/// A theme picked from the list of predefined themes.
pub struct ThemeChoice {
    /// The predefined themes, in the order the theme crate lists them.
    pub themes: Vec<String>,
    /// Position of the picked theme in `themes`.
    pub index: usize,
}

impl ThemeChoice {
    /// The name of the picked theme.
    pub fn name(&self) -> (n: &String)
        requires
            self.index < self.themes.len(),
        ensures
            n@ == self.themes@[self.index as int]@,
    {
        &self.themes[self.index]
    }
}

/// The predefined theme F8 switches to from the theme named `current`.
pub fn next_theme(current: &String) -> (c: ThemeChoice)
    ensures
        name_views(c.themes@) == salsa_theme_list(),
        distinct_names(c.themes@),
        c.themes.len() > 0,
        c.index < c.themes.len(),
        c.index == next_index(c.themes.len() as int, current_index(c.themes@, current@)),
{
    let themes = salsa_theme_names();
    proof {
        lemma_theme_list_len(themes@);
    }
    let index = next_theme_index(&themes, current);
    ThemeChoice { themes, index }
}

/// The predefined theme Shift-F8 switches to from the theme named `current`.
pub fn prev_theme(current: &String) -> (c: ThemeChoice)
    ensures
        name_views(c.themes@) == salsa_theme_list(),
        distinct_names(c.themes@),
        c.themes.len() > 0,
        c.index < c.themes.len(),
        c.index == prev_index(c.themes.len() as int, current_index(c.themes@, current@)),
{
    let themes = salsa_theme_names();
    proof {
        lemma_theme_list_len(themes@);
    }
    let index = prev_theme_index(&themes, current);
    ThemeChoice { themes, index }
}

/// The name F8 moves to from `x`.
pub open spec fn next_name(list: Seq<String>, x: Seq<char>) -> Seq<char> {
    list[next_index(list.len() as int, current_index(list, x))]@
}

/// The name Shift-F8 moves to from `x`.
pub open spec fn prev_name(list: Seq<String>, x: Seq<char>) -> Seq<char> {
    list[prev_index(list.len() as int, current_index(list, x))]@
}

/// The name Shift-F7 moves to from `x`.
pub open spec fn prev_font_name(list: Seq<String>, x: Seq<char>) -> Seq<char> {
    list[prev_font_index_of(list.len() as int, current_index(list, x))]@
}

/// In a list without repeated names, F8 then Shift-F8 returns to the theme
/// one started from, and so does Shift-F8 then F8.
pub proof fn lemma_theme_steps_undo(list: Seq<String>, i: int)
    requires
        distinct_names(list),
        0 <= i < list.len(),
    ensures
        prev_name(list, next_name(list, list[i]@)) == list[i]@,
        next_name(list, prev_name(list, list[i]@)) == list[i]@,
{
    let len = list.len() as int;
    lemma_current_index_of_member(list, i);
    let n = next_index(len, i);
    let p = prev_index(len, i);
    lemma_current_index_of_member(list, n);
    lemma_current_index_of_member(list, p);
}

/// From a theme that is not in the list, F8 moves to the second theme (the
/// first if there is only one) and Shift-F8 to the last.
pub proof fn lemma_unknown_theme(list: Seq<String>, x: Seq<char>)
    requires
        list.len() > 0,
        forall|j: int| 0 <= j < list.len() ==> list[j]@ != x,
    ensures
        next_name(list, x) == (if list.len() > 1 { list[1]@ } else { list[0]@ }),
        prev_name(list, x) == list[list.len() - 1]@,
{
}

/// For fonts, F7 then Shift-F7 returns to the font one started from, except
/// from the first font of a list of two or more; Shift-F7 then F7 returns,
/// except from the second font.
pub proof fn lemma_font_steps_undo(list: Seq<String>, i: int)
    requires
        distinct_names(list),
        0 <= i < list.len(),
    ensures
        (i != 0 || list.len() == 1) ==> prev_font_name(list, next_name(list, list[i]@)) == list[i]@,
        i != 1 ==> next_name(list, prev_font_name(list, list[i]@)) == list[i]@,
{
    let len = list.len() as int;
    lemma_current_index_of_member(list, i);
    let n = next_index(len, i);
    let p = prev_font_index_of(len, i);
    lemma_current_index_of_member(list, n);
    lemma_current_index_of_member(list, p);
}

} // verus!
