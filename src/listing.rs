use vstd::prelude::*;
use crate::text::chars_of;

verus! {

broadcast use vstd::seq_lib::to_multiset_build, vstd::seq_lib::to_multiset_insert,
    vstd::seq_lib::to_multiset_remove;

/// An entry of a directory listing. Directories carry an empty list of
/// children, to be filled when the user expands them; files carry none.
#[derive(Debug, PartialEq, Eq)]
pub struct FileEntry {
    pub name: String,
    pub path: String,
    pub is_dir: bool,
    pub children: Option<Vec<FileEntry>>,
}

impl FileEntry {
    /// An entry as a listing first holds it: a directory has an empty list of
    /// children, a file has none.
    pub fn new(name: String, path: String, is_dir: bool) -> (r: FileEntry)
        ensures
            r.name == name,
            r.path == path,
            r.is_dir == is_dir,
            is_dir ==> (r.children matches Some(c) && c@.len() == 0),
            !is_dir ==> r.children is None,
    {
        let children = if is_dir { Some(Vec::new()) } else { None };
        FileEntry { name, path, is_dir, children }
    }
}

/// The lowercase form of a name, as `str::to_lowercase` gives it.
pub uninterp spec fn lower_of(s: Seq<char>) -> Seq<char>;

/// Relies on `str::to_lowercase`: the result depends on the characters alone.
#[verifier::external_body]
fn lowercase(s: &str) -> (r: String)
    ensures
        r@ == lower_of(s@),
{
    s.to_lowercase()
}

/// A name that starts with a dot is hidden.
pub open spec fn is_hidden(name: Seq<char>) -> bool {
    name.len() > 0 && name[0] == '.'
}

/// The entries that are not hidden, in their order.
pub open spec fn visible(es: Seq<FileEntry>) -> Seq<FileEntry>
    decreases es.len(),
{
    if es.len() == 0 {
        Seq::empty()
    } else if is_hidden(es.last().name@) {
        visible(es.drop_last())
    } else {
        visible(es.drop_last()).push(es.last())
    }
}

/// Lexicographic order on characters, by code point; a proper prefix comes first.
pub open spec fn lex_lt(a: Seq<char>, b: Seq<char>) -> bool
    decreases a.len(),
{
    if a.len() == 0 {
        b.len() > 0
    } else if b.len() == 0 {
        false
    } else if a[0] != b[0] {
        a[0] < b[0]
    } else {
        lex_lt(a.drop_first(), b.drop_first())
    }
}

/// Directories come before files; within each group, lowercase names in order.
pub open spec fn key_before(a_dir: bool, a_key: Seq<char>, b_dir: bool, b_key: Seq<char>) -> bool {
    (a_dir && !b_dir) || (a_dir == b_dir && lex_lt(a_key, b_key))
}

pub open spec fn entry_before(a: FileEntry, b: FileEntry) -> bool {
    key_before(a.is_dir, lower_of(a.name@), b.is_dir, lower_of(b.name@))
}

/// No entry should have come before its predecessor.
pub open spec fn in_listing_order(es: Seq<FileEntry>) -> bool {
    forall|i: int| 0 < i < es.len() ==> !entry_before(#[trigger] es[i], es[i - 1])
}

/// Same kind and the same lowercase name: neither sorts before the other.
pub open spec fn same_key(a: FileEntry, b: FileEntry) -> bool {
    a.is_dir == b.is_dir && lower_of(a.name@) == lower_of(b.name@)
}

/// Each entry of `r` is an entry of `es`, and entries that tie stand in `r`
/// in the order they had in `es`.
pub open spec fn ties_in_order(r: Seq<FileEntry>, es: Seq<FileEntry>) -> bool {
    exists|idx: Seq<int>| is_stable_placement(idx, r, es)
}

pub open spec fn is_stable_placement(idx: Seq<int>, r: Seq<FileEntry>, es: Seq<FileEntry>) -> bool {
    &&& idx.len() == r.len()
    &&& forall|i: int| 0 <= i < r.len() ==> 0 <= #[trigger] idx[i] < es.len() && r[i] == es[idx[i]]
    &&& forall|i: int, j: int| 0 <= i < j < r.len() && same_key(r[i], r[j]) ==> idx[i] < idx[j]
}

proof fn lemma_lex_lt_irreflexive(a: Seq<char>)
    ensures
        !lex_lt(a, a),
    decreases a.len(),
{
    if a.len() > 0 {
        lemma_lex_lt_irreflexive(a.drop_first());
    }
}

proof fn lemma_lex_lt_transitive(a: Seq<char>, b: Seq<char>, c: Seq<char>)
    requires
        lex_lt(a, b),
        lex_lt(b, c),
    ensures
        lex_lt(a, c),
    decreases a.len(),
{
    if a.len() > 0 && b.len() > 0 && c.len() > 0 && a[0] == b[0] && b[0] == c[0] {
        lemma_lex_lt_transitive(a.drop_first(), b.drop_first(), c.drop_first());
    }
}

proof fn lemma_lex_lt_total(a: Seq<char>, b: Seq<char>)
    ensures
        lex_lt(a, b) || lex_lt(b, a) || a == b,
    decreases a.len(),
{
    if a.len() > 0 && b.len() > 0 && a[0] == b[0] {
        lemma_lex_lt_total(a.drop_first(), b.drop_first());
        if a.drop_first() == b.drop_first() {
            assert(a =~= seq![a[0]] + a.drop_first());
            assert(b =~= seq![b[0]] + b.drop_first());
        }
    } else if a.len() == 0 && b.len() == 0 {
        assert(a =~= b);
    }
}

/// In a listing in order, every entry from one that `e` sorts before onwards
/// is one that `e` sorts before.
proof fn lemma_before_rest(e: FileEntry, es: Seq<FileEntry>, pos: int, k: int)
    requires
        in_listing_order(es),
        0 <= pos <= k < es.len(),
        entry_before(e, es[pos]),
    ensures
        entry_before(e, es[k]),
    decreases k - pos,
{
    if k > pos {
        lemma_before_rest(e, es, pos, k - 1);
        let a = es[k - 1];
        let b = es[k];
        assert(!entry_before(b, a));
        lemma_lex_lt_total(lower_of(a.name@), lower_of(b.name@));
        if lex_lt(lower_of(e.name@), lower_of(a.name@)) && lex_lt(lower_of(a.name@), lower_of(b.name@)) {
            lemma_lex_lt_transitive(lower_of(e.name@), lower_of(a.name@), lower_of(b.name@));
        }
    }
}

proof fn lemma_lex_lt_asymmetric(a: Seq<char>, b: Seq<char>)
    ensures
        !(lex_lt(a, b) && lex_lt(b, a)),
    decreases a.len(),
{
    if a.len() > 0 && b.len() > 0 && a[0] == b[0] {
        lemma_lex_lt_asymmetric(a.drop_first(), b.drop_first());
    }
}

/// Whether `a` comes before `b` in lexicographic order.
pub fn lex_less(a: &Vec<char>, b: &Vec<char>) -> (r: bool)
    ensures
        r == lex_lt(a@, b@),
{
    let mut i: usize = 0;
    assert(a@.skip(0) =~= a@ && b@.skip(0) =~= b@);
    while i < a.len() && i < b.len() && a[i] == b[i]
        invariant
            i <= a@.len(),
            i <= b@.len(),
            lex_lt(a@, b@) == lex_lt(a@.skip(i as int), b@.skip(i as int)),
        decreases a@.len() - i,
    {
        proof {
            assert(a@.skip(i as int).drop_first() =~= a@.skip(i as int + 1));
            assert(b@.skip(i as int).drop_first() =~= b@.skip(i as int + 1));
        }
        i = i + 1;
    }
    if i == a.len() {
        i < b.len()
    } else if i == b.len() {
        false
    } else {
        a[i] < b[i]
    }
}

/// Whether an entry with the first directory flag and lowercase name comes
/// before one with the second.
pub fn sorts_before(a_dir: bool, a_key: &Vec<char>, b_dir: bool, b_key: &Vec<char>) -> (r: bool)
    ensures
        r == key_before(a_dir, a_key@, b_dir, b_key@),
{
    (a_dir && !b_dir) || (a_dir == b_dir && lex_less(a_key, b_key))
}

fn is_hidden_exec(name: &String) -> (r: bool)
    ensures
        r == is_hidden(name@),
{
    let s = name.as_str();
    s.unicode_len() > 0 && s.get_char(0) == '.'
}

/// The entries of one directory as a file browser shows them: hidden entries
/// left out, directories first, then names in case-insensitive order; entries
/// whose names differ only in case keep the order they came in.
pub fn arrange_entries(entries: Vec<FileEntry>) -> (r: Vec<FileEntry>)
    ensures
        r@.to_multiset() == visible(entries@).to_multiset(),
        in_listing_order(r@),
        ties_in_order(r@, entries@),
{
    let ghost all = entries@;
    let mut rest = entries;
    let mut out: Vec<FileEntry> = Vec::new();
    let mut keys: Vec<Vec<char>> = Vec::new();
    let ghost mut idx: Seq<int> = Seq::empty();
    while rest.len() > 0
        invariant
            rest@.len() <= all.len(),
            rest@ == all.subrange(all.len() - rest@.len(), all.len() as int),
            out@.to_multiset() == visible(all.subrange(0, all.len() - rest@.len())).to_multiset(),
            keys@.len() == out@.len(),
            forall|i: int| 0 <= i < keys@.len() ==> (#[trigger] keys@[i])@ == lower_of(out@[i].name@),
            in_listing_order(out@),
            idx.len() == out@.len(),
            forall|i: int| 0 <= i < out@.len() ==> 0 <= #[trigger] idx[i] < all.len() - rest@.len() && out@[i] == all[idx[i]],
            forall|i: int, j: int| 0 <= i < j < out@.len() && same_key(out@[i], out@[j]) ==> idx[i] < idx[j],
        decreases rest@.len(),
    {
        let ghost done = all.len() - rest@.len();
        let e = rest.remove(0);
        proof {
            assert(all.subrange(0, done + 1).drop_last() =~= all.subrange(0, done));
            assert(rest@ =~= all.subrange(all.len() - rest@.len(), all.len() as int));
        }
        if !is_hidden_exec(&e.name) {
            let k = chars_of(lowercase(e.name.as_str()).as_str());
            let mut pos: usize = 0;
            while pos < out.len() && !sorts_before(e.is_dir, &k, out[pos].is_dir, &keys[pos])
                invariant
                    pos <= out@.len(),
                    keys@.len() == out@.len(),
                    forall|i: int| 0 <= i < keys@.len() ==> (#[trigger] keys@[i])@ == lower_of(out@[i].name@),
                    k@ == lower_of(e.name@),
                    forall|j: int| 0 <= j < pos ==> !entry_before(e, #[trigger] out@[j]),
                decreases out@.len() - pos,
            {
                pos = pos + 1;
            }
            proof {
                if pos < out@.len() {
                    lemma_lex_lt_asymmetric(lower_of(e.name@), lower_of(out@[pos as int].name@));
                }
            }
            let ghost old_out = out@;
            let ghost old_idx = idx;
            out.insert(pos, e);
            keys.insert(pos, k);
            proof {
                idx = old_idx.insert(pos as int, done);
                assert forall|j: int| pos <= j < old_out.len() implies !same_key(e, #[trigger] old_out[j]) by {
                    lemma_before_rest(e, old_out, pos as int, j);
                    lemma_lex_lt_irreflexive(lower_of(e.name@));
                }
                assert forall|i: int| 0 <= i < out@.len() implies 0 <= #[trigger] idx[i] < all.len() - rest@.len() && out@[i] == all[idx[i]] by {
                    if i < pos {
                        assert(out@[i] == old_out[i]);
                    } else if i > pos {
                        assert(out@[i] == old_out[i - 1]);
                    }
                }
                assert forall|i: int, j: int| 0 <= i < j < out@.len() && same_key(out@[i], out@[j]) implies idx[i] < idx[j] by {
                    if j < pos {
                        assert(out@[i] == old_out[i] && out@[j] == old_out[j]);
                    } else if j == pos {
                        assert(out@[i] == old_out[i]);
                    } else if i > pos {
                        assert(out@[i] == old_out[i - 1] && out@[j] == old_out[j - 1]);
                    } else if i == pos {
                        assert(out@[j] == old_out[j - 1]);
                        assert(!same_key(e, old_out[j - 1]));
                    } else {
                        assert(out@[i] == old_out[i] && out@[j] == old_out[j - 1]);
                    }
                }
                assert forall|i: int| 0 < i < out@.len() implies !entry_before(#[trigger] out@[i], out@[i - 1]) by {
                    if i < pos {
                        assert(out@[i] == old_out[i] && out@[i - 1] == old_out[i - 1]);
                    } else if i == pos {
                        assert(out@[i - 1] == old_out[i - 1]);
                    } else if i == pos + 1 {
                        assert(out@[i] == old_out[i - 1]);
                    } else {
                        assert(out@[i] == old_out[i - 1] && out@[i - 1] == old_out[i - 2]);
                    }
                }
                assert forall|i: int| 0 <= i < keys@.len() implies (#[trigger] keys@[i])@ == lower_of(out@[i].name@) by {
                    if i > pos {
                        assert(out@[i] == old_out[i - 1]);
                    }
                }
            }
        }
    }
    proof {
        assert(all.subrange(0, all.len() as int) =~= all);
        assert(is_stable_placement(idx, out@, all));
    }
    out
}

} // verus!
