//! Which entries of a directory the reader lists, under which title, and in
//! which order.

use vstd::prelude::*;
use vstd::string::StrSliceExecFns;
use vstd::string::StringExecFns;
use crate::order::{
    bytes_before, bytes_lt, byte_rank, char_rank, chars_lt, lemma_ranks_injective,
    lemma_seq_lt_asymmetric, lemma_seq_lt_irreflexive, lemma_seq_lt_total, lemma_seq_lt_transitive,
    prefix_lt,
};
use crate::text::{file_text, utf8_lossy};

verus! {

/// One entry of the listed directory, as the reader sees it.
pub struct DirEntry {
    /// The entry's file name (its last path component), as raw bytes.
    pub name: Vec<u8>,
    /// Whether the entry is a regular file.
    pub is_file: bool,
}

/// One file shown in the file list.
pub struct TxtFile {
    /// The title shown in the list: the file name without its extension.
    pub title: String,
    /// Index of the file's entry in the directory listing it was taken from.
    pub entry: usize,
}

/// The name ends with `.txt`.
pub open spec fn is_txt_name(name: Seq<char>) -> bool {
    name.len() >= 4 && name.subrange(name.len() - 4, name.len() as int) =~= seq!['.', 't', 'x', 't']
}

/// Length of the file stem of a name that ends with `.txt`: the name without
/// its last `.txt`, unless nothing would be left before the dot, in which
/// case the stem is the whole name (`.txt` is a hidden file without
/// extension).
pub open spec fn stem_len(name: Seq<char>) -> int {
    if name.len() <= 4 {
        name.len() as int
    } else {
        name.len() - 4
    }
}

/// The title under which a `.txt` file is listed: its file stem.
pub open spec fn txt_title(name: Seq<char>) -> Seq<char> {
    name.take(stem_len(name))
}

/// The file name of an entry as text: its bytes decoded as UTF-8, each
/// invalid sequence replaced by U+FFFD.
pub open spec fn entry_text(e: DirEntry) -> Seq<char> {
    utf8_lossy(e.name@)
}

/// Entry `i` is listed: it is a regular file whose name ends with `.txt`.
pub open spec fn is_listed(entries: Seq<DirEntry>, i: int) -> bool {
    0 <= i < entries.len() && entries[i].is_file && is_txt_name(entry_text(entries[i]))
}

/// The order of the list: by title, then by file name as paths compare
/// them (byte by byte), then by position in the directory listing.
pub open spec fn listed_before(entries: Seq<DirEntry>, a: int, b: int) -> bool {
    let na = entries[a].name@;
    let nb = entries[b].name@;
    let ta = txt_title(utf8_lossy(na));
    let tb = txt_title(utf8_lossy(nb));
    ||| chars_lt(ta, tb)
    ||| ta == tb && bytes_lt(na, nb)
    ||| ta == tb && na == nb && a < b
}

/// The order by title, then by name bytes, is a strict order, total on
/// names that differ.
proof fn lemma_title_name_order(x: Seq<u8>, y: Seq<u8>, z: Seq<u8>)
    ensures
        !chars_lt(txt_title(utf8_lossy(x)), txt_title(utf8_lossy(x))),
        !bytes_lt(x, x),
        chars_lt(txt_title(utf8_lossy(x)), txt_title(utf8_lossy(y))) ==> !chars_lt(
            txt_title(utf8_lossy(y)),
            txt_title(utf8_lossy(x)),
        ),
        bytes_lt(x, y) ==> !bytes_lt(y, x),
        txt_title(utf8_lossy(x)) != txt_title(utf8_lossy(y)) ==> chars_lt(
            txt_title(utf8_lossy(x)),
            txt_title(utf8_lossy(y)),
        ) || chars_lt(txt_title(utf8_lossy(y)), txt_title(utf8_lossy(x))),
        x != y ==> bytes_lt(x, y) || bytes_lt(y, x),
        chars_lt(txt_title(utf8_lossy(x)), txt_title(utf8_lossy(y))) && chars_lt(
            txt_title(utf8_lossy(y)),
            txt_title(utf8_lossy(z)),
        ) ==> chars_lt(txt_title(utf8_lossy(x)), txt_title(utf8_lossy(z))),
        bytes_lt(x, y) && bytes_lt(y, z) ==> bytes_lt(x, z),
{
    let tx = txt_title(utf8_lossy(x));
    let ty = txt_title(utf8_lossy(y));
    let tz = txt_title(utf8_lossy(z));
    lemma_ranks_injective();
    lemma_seq_lt_irreflexive(tx, char_rank());
    lemma_seq_lt_irreflexive(x, byte_rank());
    if chars_lt(tx, ty) {
        lemma_seq_lt_asymmetric(tx, ty, char_rank());
    }
    if bytes_lt(x, y) {
        lemma_seq_lt_asymmetric(x, y, byte_rank());
    }
    if tx != ty {
        lemma_seq_lt_total(tx, ty, char_rank());
    }
    if x != y {
        lemma_seq_lt_total(x, y, byte_rank());
    }
    if chars_lt(tx, ty) && chars_lt(ty, tz) {
        lemma_seq_lt_transitive(tx, ty, tz, char_rank());
    }
    if bytes_lt(x, y) && bytes_lt(y, z) {
        lemma_seq_lt_transitive(x, y, z, byte_rank());
    }
}

/// The list order is a strict total order on entries.
pub proof fn lemma_listed_before_order(entries: Seq<DirEntry>, a: int, b: int, c: int)
    ensures
        !listed_before(entries, a, a),
        listed_before(entries, a, b) ==> !listed_before(entries, b, a),
        a != b ==> listed_before(entries, a, b) || listed_before(entries, b, a),
        listed_before(entries, a, b) && listed_before(entries, b, c) ==> listed_before(
            entries,
            a,
            c,
        ),
{
    lemma_title_name_order(entries[a].name@, entries[b].name@, entries[c].name@);
}

/// `files` is the file list of the directory listing `entries`: each listed
/// entry exactly once, under its title, in list order.
pub open spec fn is_txt_listing(entries: Seq<DirEntry>, files: Seq<TxtFile>) -> bool {
    &&& forall|k: int|
        0 <= k < files.len() ==> {
            &&& is_listed(entries, files[k].entry as int)
            &&& files[k].title@ == txt_title(entry_text(entries[files[k].entry as int]))
        }
    &&& forall|i: int|
        is_listed(entries, i) ==> exists|k: int| 0 <= k < files.len() && files[k].entry == i
    &&& forall|k: int, l: int|
        0 <= k < l < files.len() ==> listed_before(entries, files[k].entry as int, files[l].entry as int)
}

/// The order of files with different names: by title, then by name bytes.
pub open spec fn name_before(n1: Seq<u8>, n2: Seq<u8>) -> bool {
    ||| chars_lt(txt_title(utf8_lossy(n1)), txt_title(utf8_lossy(n2)))
    ||| txt_title(utf8_lossy(n1)) == txt_title(utf8_lossy(n2)) && bytes_lt(n1, n2)
}

proof fn lemma_name_before_order(x: Seq<u8>, y: Seq<u8>, z: Seq<u8>)
    ensures
        !name_before(x, x),
        name_before(x, y) ==> !name_before(y, x),
        name_before(x, y) && name_before(y, z) ==> name_before(x, z),
{
    lemma_title_name_order(x, y, z);
}

/// The names are in strictly increasing order.
pub open spec fn names_sorted(x: Seq<Seq<u8>>) -> bool {
    forall|k: int, l: int| 0 <= k < l < x.len() ==> name_before(x[k], x[l])
}

/// Two strictly sorted sequences of the same names are the same sequence.
proof fn lemma_sorted_names_unique(x: Seq<Seq<u8>>, y: Seq<Seq<u8>>)
    requires
        names_sorted(x),
        names_sorted(y),
        forall|n: Seq<u8>| x.contains(n) <==> y.contains(n),
    ensures
        x == y,
    decreases x.len(),
{
    if x.len() == 0 {
        if y.len() > 0 {
            assert(y.contains(y[0]));
        }
        assert(x =~= y);
    } else {
        assert(x.contains(x[0]));
        assert(y.contains(x[0]));
        let j = choose|j: int| 0 <= j < y.len() && y[j] == x[0];
        assert(y.contains(y[0]));
        let i = choose|i: int| 0 <= i < x.len() && x[i] == y[0];
        if x[0] != y[0] {
            assert(i > 0);
            assert(j > 0);
            assert(name_before(x[0], x[i]));
            assert(name_before(y[0], y[j]));
            lemma_name_before_order(x[0], y[0], x[0]);
        }
        let x1 = x.drop_first();
        let y1 = y.drop_first();
        assert forall|n: Seq<u8>| x1.contains(n) <==> y1.contains(n) by {
            if x1.contains(n) {
                let m = choose|m: int| 0 <= m < x1.len() && x1[m] == n;
                assert(x[m + 1] == n);
                assert(name_before(x[0], x[m + 1]));
                lemma_name_before_order(n, n, n);
                assert(x.contains(n));
                let q = choose|q: int| 0 <= q < y.len() && y[q] == n;
                assert(q != 0);
                assert(y1[q - 1] == n);
            }
            if y1.contains(n) {
                let m = choose|m: int| 0 <= m < y1.len() && y1[m] == n;
                assert(y[m + 1] == n);
                assert(name_before(y[0], y[m + 1]));
                lemma_name_before_order(n, n, n);
                assert(y.contains(n));
                let q = choose|q: int| 0 <= q < x.len() && x[q] == n;
                assert(q != 0);
                assert(x1[q - 1] == n);
            }
        }
        lemma_sorted_names_unique(x1, y1);
        assert(x[0] == y[0]);
        assert forall|k: int| 0 <= k < x.len() implies x[k] == y[k] by {
            if k > 0 {
                assert(x[k] == x1[k - 1]);
                assert(y[k] == y1[k - 1]);
            }
        }
        assert(x =~= y);
    }
}

/// No two entries of the listing have the same name.
pub open spec fn distinct_entry_names(entries: Seq<DirEntry>) -> bool {
    forall|i: int, j: int|
        0 <= i < entries.len() && 0 <= j < entries.len() && i != j ==> entries[i].name@ != entries[j].name@
}

/// Every entry of `a` has an entry of the same name and kind in `b`.
pub open spec fn entries_covered(a: Seq<DirEntry>, b: Seq<DirEntry>) -> bool {
    forall|i: int|
        #![trigger a[i]]
        0 <= i < a.len() ==> exists|j: int|
            0 <= j < b.len() && b[j].name@ == a[i].name@ && b[j].is_file == a[i].is_file
}

/// The names of the listed files, in list order.
pub open spec fn listed_names(entries: Seq<DirEntry>, files: Seq<TxtFile>) -> Seq<Seq<u8>> {
    Seq::new(files.len(), |k: int| entries[files[k].entry as int].name@)
}

proof fn lemma_listed_names_sorted(entries: Seq<DirEntry>, files: Seq<TxtFile>)
    requires
        is_txt_listing(entries, files),
        distinct_entry_names(entries),
    ensures
        names_sorted(listed_names(entries, files)),
{
    let x = listed_names(entries, files);
    assert forall|k: int, l: int| 0 <= k < l < x.len() implies name_before(x[k], x[l]) by {
        let ek = files[k].entry as int;
        let el = files[l].entry as int;
        assert(listed_before(entries, ek, el));
        lemma_listed_before_order(entries, ek, el, el);
        assert(ek != el);
    }
}

proof fn lemma_listed_names_contained(
    a: Seq<DirEntry>,
    b: Seq<DirEntry>,
    fa: Seq<TxtFile>,
    fb: Seq<TxtFile>,
    n: Seq<u8>,
)
    requires
        is_txt_listing(a, fa),
        is_txt_listing(b, fb),
        entries_covered(a, b),
        listed_names(a, fa).contains(n),
    ensures
        listed_names(b, fb).contains(n),
{
    let xa = listed_names(a, fa);
    let k = choose|k: int| 0 <= k < xa.len() && xa[k] == n;
    let i = fa[k].entry as int;
    assert(is_listed(a, i));
    let j = choose|j: int| 0 <= j < b.len() && b[j].name@ == a[i].name@ && b[j].is_file == a[i].is_file;
    assert(is_listed(b, j));
    let m = choose|m: int| 0 <= m < fb.len() && fb[m].entry == j;
    assert(listed_names(b, fb)[m] == n);
}

/// The list does not depend on the order in which the directory lists its
/// entries: two listings that hold the same entries (raw file names are
/// unique in a directory) give the same file names under the same titles in
/// the same order.
pub proof fn lemma_listing_order_irrelevant(
    a: Seq<DirEntry>,
    b: Seq<DirEntry>,
    fa: Seq<TxtFile>,
    fb: Seq<TxtFile>,
)
    requires
        is_txt_listing(a, fa),
        is_txt_listing(b, fb),
        distinct_entry_names(a),
        distinct_entry_names(b),
        entries_covered(a, b),
        entries_covered(b, a),
    ensures
        fa.len() == fb.len(),
        forall|k: int|
            0 <= k < fa.len() ==> {
                &&& a[fa[k].entry as int].name@ == b[fb[k].entry as int].name@
                &&& fa[k].title@ == fb[k].title@
            },
{
    let xa = listed_names(a, fa);
    let xb = listed_names(b, fb);
    lemma_listed_names_sorted(a, fa);
    lemma_listed_names_sorted(b, fb);
    assert forall|n: Seq<u8>| xa.contains(n) <==> xb.contains(n) by {
        if xa.contains(n) {
            lemma_listed_names_contained(a, b, fa, fb, n);
        }
        if xb.contains(n) {
            lemma_listed_names_contained(b, a, fb, fa, n);
        }
    }
    lemma_sorted_names_unique(xa, xb);
    assert(xa.len() == fa.len());
    assert(xb.len() == fb.len());
    assert forall|k: int| 0 <= k < fa.len() implies {
        &&& a[fa[k].entry as int].name@ == b[fb[k].entry as int].name@
        &&& fa[k].title@ == fb[k].title@
    } by {
        assert(xa[k] == xb[k]);
    }
}

/// The characters of a text, one by one.
fn chars_of(s: &String) -> (v: Vec<char>)
    ensures
        v@ == s@,
{
    let t = s.as_str();
    let n = t.unicode_len();
    let mut v: Vec<char> = Vec::new();
    let mut i: usize = 0;
    while i < n
        invariant
            n == t@.len(),
            t@ == s@,
            i <= n,
            v@ == t@.take(i as int),
        decreases n - i,
    {
        v.push(t.get_char(i));
        i = i + 1;
        assert(v@ =~= t@.take(i as int));
    }
    assert(t@.take(n as int) =~= t@);
    v
}

/// Whether the characters end with `.txt`.
fn ends_with_txt(name: &Vec<char>) -> (r: bool)
    ensures
        r == is_txt_name(name@),
{
    let n = name.len();
    if n < 4 {
        return false;
    }
    let r = name[n - 4] == '.' && name[n - 3] == 't' && name[n - 2] == 'x' && name[n - 1] == 't';
    proof {
        let tail = name@.subrange(n - 4, n as int);
        if r {
            assert(tail =~= seq!['.', 't', 'x', 't']);
        } else {
            if tail =~= seq!['.', 't', 'x', 't'] {
                assert(tail[0] == name@[n - 4]);
                assert(tail[1] == name@[n - 3]);
                assert(tail[2] == name@[n - 2]);
                assert(tail[3] == name@[n - 1]);
            }
        }
    }
    r
}

fn title_len(name: &Vec<char>) -> (r: usize)
    ensures
        r == stem_len(name@),
{
    if name.len() <= 4 {
        name.len()
    } else {
        name.len() - 4
    }
}

/// Compares two entries in list order, given their names as text.
fn before(entries: &Vec<DirEntry>, texts: &Vec<Vec<char>>, a: usize, b: usize) -> (r: bool)
    requires
        a < texts.len(),
        b < texts.len(),
        texts.len() == entries.len(),
        forall|j: int| 0 <= j < texts.len() ==> (#[trigger] texts[j])@ == entry_text(entries[j]),
    ensures
        r == listed_before(entries@, a as int, b as int),
{
    let ta = &texts[a];
    let tb = &texts[b];
    let la = title_len(ta);
    let lb = title_len(tb);
    proof {
        lemma_title_name_order(entries[a as int].name@, entries[b as int].name@, entries[b as int].name@);
        lemma_title_name_order(entries[b as int].name@, entries[a as int].name@, entries[a as int].name@);
    }
    if prefix_lt(ta, la, tb, lb) {
        return true;
    }
    if prefix_lt(tb, lb, ta, la) {
        return false;
    }
    if bytes_before(&entries[a].name, &entries[b].name) {
        return true;
    }
    if bytes_before(&entries[b].name, &entries[a].name) {
        return false;
    }
    a < b
}

/// The title of a listed file, as text.
fn title_of(name: &String) -> (t: String)
    ensures
        t@ == txt_title(name@),
{
    let s = name.as_str();
    let n = s.unicode_len();
    let l = if n <= 4 {
        n
    } else {
        n - 4
    };
    String::from_str(s.substring_char(0, l))
}

/// Inserting an entry where it belongs keeps a list of entries in list order.
proof fn lemma_insert_in_order(entries: Seq<DirEntry>, order: Seq<usize>, pos: int, x: usize)
    requires
        0 <= pos <= order.len(),
        forall|k: int, l: int|
            0 <= k < l < order.len() ==> listed_before(entries, order[k] as int, order[l] as int),
        forall|p: int| 0 <= p < pos ==> listed_before(entries, #[trigger] order[p] as int, x as int),
        pos < order.len() ==> listed_before(entries, x as int, order[pos] as int),
    ensures
        forall|k: int, l: int|
            0 <= k < l < order.len() + 1 ==> listed_before(
                entries,
                order.insert(pos, x)[k] as int,
                order.insert(pos, x)[l] as int,
            ),
        forall|y: usize| order.contains(y) ==> order.insert(pos, x).contains(y),
        order.insert(pos, x).contains(x),
{
    let new = order.insert(pos, x);
    order.insert_ensures(pos, x);
    assert forall|k: int, l: int| 0 <= k < l < order.len() + 1 implies listed_before(
        entries,
        new[k] as int,
        new[l] as int,
    ) by {
        if l == pos {
            assert(listed_before(entries, order[k] as int, x as int));
        } else if k == pos {
            if l - 1 > pos {
                lemma_listed_before_order(
                    entries,
                    x as int,
                    order[pos] as int,
                    order[l - 1] as int,
                );
            }
        } else if k < pos && l > pos {
            assert(listed_before(entries, order[k] as int, order[l - 1] as int));
        } else if k > pos {
            assert(listed_before(entries, order[k - 1] as int, order[l - 1] as int));
        }
    }
    assert forall|y: usize| order.contains(y) implies new.contains(y) by {
        let k = choose|k: int| 0 <= k < order.len() && order[k] == y;
        if k < pos {
            assert(new[k] == y);
        } else {
            assert(new[k + 1] == y);
        }
    }
    assert(new[pos] == x);
}

/// The files the reader lists from a directory listing: every regular file
/// whose name ends with `.txt`, each once, under its file stem, sorted by
/// title, then by file name (then by position, for equal names).
pub fn select_txt_files(entries: &Vec<DirEntry>) -> (files: Vec<TxtFile>)
    ensures
        is_txt_listing(entries@, files@),
{
    let n = entries.len();
    let mut names: Vec<Vec<char>> = Vec::new();
    let mut i: usize = 0;
    while i < n
        invariant
            n == entries.len(),
            i <= n,
            names.len() == i,
            forall|j: int| 0 <= j < i ==> (#[trigger] names[j])@ == entry_text(entries[j]),
        decreases n - i,
    {
        names.push(chars_of(&file_text(&entries[i].name)));
        i = i + 1;
    }
    let mut order: Vec<usize> = Vec::new();
    let mut i: usize = 0;
    while i < n
        invariant
            n == entries.len(),
            names.len() == n,
            forall|j: int| 0 <= j < n ==> (#[trigger] names[j])@ == entry_text(entries[j]),
            i <= n,
            forall|k: int| 0 <= k < order.len() ==> order[k] < i && is_listed(entries@, #[trigger] order[k] as int),
            forall|k: int, l: int|
                0 <= k < l < order.len() ==> listed_before(entries@, order[k] as int, order[l] as int),
            forall|j: int| 0 <= j < i && is_listed(entries@, j) ==> order@.contains(j as usize),
        decreases n - i,
    {
        if entries[i].is_file && ends_with_txt(&names[i]) {
            let mut pos: usize = 0;
            while pos < order.len() && !before(entries, &names, i, order[pos])
                invariant
                    n == entries.len(),
                    names.len() == n,
                    forall|j: int| 0 <= j < n ==> (#[trigger] names[j])@ == entry_text(entries[j]),
                    i < n,
                    pos <= order.len(),
                    forall|k: int| 0 <= k < order.len() ==> order[k] < i,
                    forall|p: int| 0 <= p < pos ==> listed_before(entries@, #[trigger] order[p] as int, i as int),
                decreases order.len() - pos,
            {
                proof {
                    lemma_listed_before_order(entries@, order[pos as int] as int, i as int, i as int);
                }
                pos = pos + 1;
            }
            proof {
                lemma_insert_in_order(entries@, order@, pos as int, i);
            }
            order.insert(pos, i);
        }
        i = i + 1;
    }
    let mut files: Vec<TxtFile> = Vec::new();
    let mut k: usize = 0;
    while k < order.len()
        invariant
            n == entries.len(),
            k <= order.len(),
            files.len() == k,
            forall|m: int| 0 <= m < order.len() ==> is_listed(entries@, #[trigger] order[m] as int),
            forall|m: int|
                0 <= m < k ==> {
                    &&& (#[trigger] files[m]).entry == order[m]
                    &&& files[m].title@ == txt_title(entry_text(entries[order[m] as int]))
                },
        decreases order.len() - k,
    {
        let e = order[k];
        let title = title_of(&file_text(&entries[e].name));
        files.push(TxtFile { title, entry: e });
        k = k + 1;
    }
    proof {
        assert forall|j: int| is_listed(entries@, j) implies exists|m: int|
            0 <= m < files.len() && files[m].entry == j by {
            assert(order@.contains(j as usize));
            let m = choose|m: int| 0 <= m < order.len() && order[m] == j as usize;
            assert(files[m].entry == j);
        }
    }
    files
}

} // verus!
