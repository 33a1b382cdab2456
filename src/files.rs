use vstd::prelude::*;

verus! {

/// Glyph shown before a directory's name.
pub open spec fn dir_glyph() -> char {
    '\u{1F5C0}'
}

/// Glyph shown before a file's name.
pub open spec fn file_glyph() -> char {
    '\u{1F5CE}'
}

/// The label under which an entry is displayed: a glyph for its kind, a space, its name.
pub open spec fn label(name: Seq<char>, is_dir: bool) -> Seq<char> {
    seq![if is_dir { dir_glyph() } else { file_glyph() }, ' '] + name
}

pub open spec fn string_views(s: Seq<String>) -> Seq<Seq<char>> {
    s.map_values(|p: String| p@)
}

/// One child of a directory, with its display label.
#[derive(Debug, PartialEq, Eq)]
pub struct File {
    pub name: String,
    pub formated_name: String,
    pub is_dir: bool,
}

impl View for File {
    type V = (Seq<char>, bool);

    open spec fn view(&self) -> (Seq<char>, bool) {
        (self.name@, self.is_dir)
    }
}

impl File {
    /// The label is derived from the name and the kind.
    pub open spec fn wf(&self) -> bool {
        self.formated_name@ == label(self.name@, self.is_dir)
    }

    pub fn new(name: String, is_dir: bool) -> (r: File)
        ensures
            r.name@ == name@,
            r.is_dir == is_dir,
            r.wf(),
    {
        let mut formated_name = if is_dir {
            String::from_str("\u{1F5C0} ")
        } else {
            String::from_str("\u{1F5CE} ")
        };
        proof {
            reveal_strlit("\u{1F5C0} ");
            reveal_strlit("\u{1F5CE} ");
        }
        formated_name.append(name.as_str());
        assert(formated_name@ =~= label(name@, is_dir));
        File { name, formated_name, is_dir }
    }
}

/// A child of a directory as the filesystem reports it: its name and its kind.
#[derive(Clone, Debug, PartialEq, Eq)]
pub struct DirEntry {
    pub name: String,
    pub is_dir: bool,
}

impl View for DirEntry {
    type V = (Seq<char>, bool);

    open spec fn view(&self) -> (Seq<char>, bool) {
        (self.name@, self.is_dir)
    }
}

/// The model of an entry: its name and whether it is a directory.
pub type EntryModel = (Seq<char>, bool);

pub open spec fn raw_views(s: Seq<DirEntry>) -> Seq<EntryModel> {
    s.map_values(|e: DirEntry| e@)
}

pub open spec fn file_views(s: Seq<File>) -> Seq<EntryModel> {
    s.map_values(|f: File| f@)
}

/// A name is hidden when it starts with a period.
pub open spec fn is_hidden(name: Seq<char>) -> bool {
    name.len() > 0 && name[0] == '.'
}

/// Whether an entry is kept by a listing with the given hidden-flag.
pub open spec fn is_shown(e: EntryModel, show_hidden: bool) -> bool {
    show_hidden || !is_hidden(e.0)
}

/// Lexicographic order of names by code point, which is the byte order of
/// their UTF-8 encodings.
pub open spec fn name_lt(a: Seq<char>, b: Seq<char>) -> bool
    decreases a.len(),
{
    if a.len() == 0 {
        b.len() > 0
    } else if b.len() == 0 {
        false
    } else if a[0] != b[0] {
        (a[0] as u32) < (b[0] as u32)
    } else {
        name_lt(a.drop_first(), b.drop_first())
    }
}

/// Directories come before files; within a kind, names ascend.
pub open spec fn entry_lt(a: EntryModel, b: EntryModel) -> bool {
    (a.1 && !b.1) || (a.1 == b.1 && name_lt(a.0, b.0))
}

/// No entry comes strictly before one that precedes it.
pub open spec fn is_sorted(s: Seq<EntryModel>) -> bool {
    forall|i: int, j: int| 0 <= i < j < s.len() ==> !entry_lt(#[trigger] s[j], #[trigger] s[i])
}

/// Inserts `e` before the first entry that it strictly precedes.
pub open spec fn insert_sorted(s: Seq<EntryModel>, e: EntryModel) -> Seq<EntryModel>
    decreases s.len(),
{
    if s.len() == 0 {
        seq![e]
    } else if entry_lt(e, s[0]) {
        seq![e] + s
    } else {
        seq![s[0]] + insert_sorted(s.drop_first(), e)
    }
}

/// The listing of a directory whose children are `raw`: the shown entries,
/// each inserted in turn into sorted position.
pub open spec fn listing(raw: Seq<EntryModel>, show_hidden: bool) -> Seq<EntryModel>
    decreases raw.len(),
{
    if raw.len() == 0 {
        seq![]
    } else {
        let rest = listing(raw.drop_last(), show_hidden);
        if is_shown(raw.last(), show_hidden) {
            insert_sorted(rest, raw.last())
        } else {
            rest
        }
    }
}

proof fn lemma_name_lt_transitive(a: Seq<char>, b: Seq<char>, c: Seq<char>)
    requires
        name_lt(a, b),
        name_lt(b, c),
    ensures
        name_lt(a, c),
    decreases a.len(),
{
    if a.len() > 0 && b.len() > 0 && c.len() > 0 && a[0] == b[0] && b[0] == c[0] {
        lemma_name_lt_transitive(a.drop_first(), b.drop_first(), c.drop_first());
    }
}

proof fn lemma_name_lt_irreflexive(a: Seq<char>)
    ensures
        !name_lt(a, a),
    decreases a.len(),
{
    if a.len() > 0 {
        lemma_name_lt_irreflexive(a.drop_first());
    }
}

proof fn lemma_entry_lt_transitive(a: EntryModel, b: EntryModel, c: EntryModel)
    requires
        entry_lt(a, b),
        entry_lt(b, c),
    ensures
        entry_lt(a, c),
{
    if a.1 == b.1 && b.1 == c.1 {
        lemma_name_lt_transitive(a.0, b.0, c.0);
    }
}

proof fn lemma_insert_sorted(s: Seq<EntryModel>, e: EntryModel)
    requires
        is_sorted(s),
    ensures
        is_sorted(insert_sorted(s, e)),
        forall|x: EntryModel| #[trigger]
            insert_sorted(s, e).contains(x) <==> (x == e || s.contains(x)),
    decreases s.len(),
{
    let r = insert_sorted(s, e);
    if s.len() == 0 {
        assert(r[0] == e);
    } else if entry_lt(e, s[0]) {
        assert(r =~= seq![e] + s);
        assert forall|i: int, j: int| 0 <= i < j < r.len() implies !entry_lt(r[j], r[i]) by {
            if i == 0 {
                assert(r[0] == e && r[j] == s[j - 1]);
                if entry_lt(r[j], e) {
                    if j > 1 {
                        assert(!entry_lt(s[j - 1], s[0]));
                    }
                    lemma_entry_lt_transitive(r[j], e, s[0]);
                    lemma_name_lt_irreflexive(s[0].0);
                }
            } else {
                assert(r[i] == s[i - 1] && r[j] == s[j - 1]);
            }
        }
        assert forall|x: EntryModel| r.contains(x) <==> (x == e || s.contains(x)) by {
            if x == e {
                assert(r[0] == x);
            }
            if s.contains(x) {
                let k = choose|k: int| 0 <= k < s.len() && s[k] == x;
                assert(r[k + 1] == x);
            }
        }
    } else {
        let t = s.drop_first();
        assert(is_sorted(t)) by {
            assert forall|i: int, j: int| 0 <= i < j < t.len() implies !entry_lt(t[j], t[i]) by {
                assert(t[i] == s[i + 1] && t[j] == s[j + 1]);
            }
        }
        lemma_insert_sorted(t, e);
        let u = insert_sorted(t, e);
        assert(r =~= seq![s[0]] + u);
        assert forall|i: int, j: int| 0 <= i < j < r.len() implies !entry_lt(r[j], r[i]) by {
            if i == 0 {
                assert(r[0] == s[0]);
                assert(r[j] == u[j - 1]);
                assert(u.contains(r[j]));
                if r[j] != e {
                    assert(t.contains(r[j]));
                    let k = choose|k: int| 0 <= k < t.len() && t[k] == r[j];
                    assert(s[k + 1] == r[j]);
                    assert(!entry_lt(s[k + 1], s[0]));
                } else {
                    assert(!entry_lt(e, s[0]));
                }
                assert(!entry_lt(r[j], s[0]));
            } else {
                assert(r[i] == u[i - 1] && r[j] == u[j - 1]);
                assert(!entry_lt(u[j - 1], u[i - 1]));
            }
        }
        assert forall|x: EntryModel| r.contains(x) <==> (x == e || s.contains(x)) by {
            if r.contains(x) {
                let k = choose|k: int| 0 <= k < r.len() && r[k] == x;
                if k > 0 {
                    assert(u[k - 1] == x);
                    assert(u.contains(x));
                    if x != e {
                        let m = choose|m: int| 0 <= m < t.len() && t[m] == x;
                        assert(s[m + 1] == x);
                    }
                } else {
                    assert(s[0] == x);
                }
            }
            if x == e {
                assert(u.contains(x));
                let k = choose|k: int| 0 <= k < u.len() && u[k] == x;
                assert(r[k + 1] == x);
            }
            if s.contains(x) {
                let k = choose|k: int| 0 <= k < s.len() && s[k] == x;
                if k == 0 {
                    assert(r[0] == x);
                } else {
                    assert(t[k - 1] == x);
                    assert(u.contains(x));
                    let m = choose|m: int| 0 <= m < u.len() && u[m] == x;
                    assert(r[m + 1] == x);
                }
            }
        }
    }
}

/// A listing is sorted, and holds exactly the shown children.
pub proof fn lemma_listing(raw: Seq<EntryModel>, show_hidden: bool)
    ensures
        is_sorted(listing(raw, show_hidden)),
        forall|x: EntryModel| #[trigger]
            listing(raw, show_hidden).contains(x) <==> (raw.contains(x) && is_shown(
                x,
                show_hidden,
            )),
    decreases raw.len(),
{
    if raw.len() > 0 {
        let init = raw.drop_last();
        lemma_listing(init, show_hidden);
        let rest = listing(init, show_hidden);
        if is_shown(raw.last(), show_hidden) {
            lemma_insert_sorted(rest, raw.last());
        }
        assert forall|x: EntryModel| raw.contains(x) <==> (init.contains(x) || x == raw.last()) by {
            if raw.contains(x) {
                let k = choose|k: int| 0 <= k < raw.len() && raw[k] == x;
                if k < raw.len() - 1 {
                    assert(init[k] == x);
                }
            }
            if init.contains(x) {
                let k = choose|k: int| 0 <= k < init.len() && init[k] == x;
                assert(raw[k] == x);
            }
            if x == raw.last() {
                assert(raw[raw.len() - 1] == x);
            }
        }
    } else {
        assert(listing(raw, show_hidden) =~= Seq::<EntryModel>::empty());
    }
}

proof fn lemma_insert_sorted_at(s: Seq<EntryModel>, e: EntryModel, j: int)
    requires
        0 <= j <= s.len(),
        forall|k: int| 0 <= k < j ==> !entry_lt(e, #[trigger] s[k]),
        j == s.len() || entry_lt(e, s[j]),
    ensures
        insert_sorted(s, e) == s.insert(j, e),
    decreases s.len(),
{
    if s.len() == 0 {
        assert(s.insert(j, e) =~= seq![e]);
    } else if j == 0 {
        assert(s.insert(j, e) =~= seq![e] + s);
    } else {
        let t = s.drop_first();
        assert forall|k: int| 0 <= k < j - 1 implies !entry_lt(e, #[trigger] t[k]) by {
            assert(t[k] == s[k + 1]);
        }
        assert(!entry_lt(e, s[0]));
        lemma_insert_sorted_at(t, e, j - 1);
        assert(s.insert(j, e) =~= seq![s[0]] + t.insert(j - 1, e));
    }
}

fn is_hidden_name(name: &String) -> (r: bool)
    ensures
        r == is_hidden(name@),
{
    let n = name.as_str().unicode_len();
    n > 0 && name.as_str().get_char(0) == '.'
}

fn name_less(a: &String, b: &String) -> (r: bool)
    ensures
        r == name_lt(a@, b@),
{
    let la = a.as_str().unicode_len();
    let lb = b.as_str().unicode_len();
    let mut i: usize = 0;
    assert(a@.subrange(0, la as int) =~= a@);
    assert(b@.subrange(0, lb as int) =~= b@);
    while i < la && i < lb
        invariant
            la == a@.len(),
            lb == b@.len(),
            i <= la,
            i <= lb,
            name_lt(a@, b@) == name_lt(a@.subrange(i as int, la as int), b@.subrange(i as int, lb as int)),
        decreases la - i,
    {
        let ca = a.as_str().get_char(i);
        let cb = b.as_str().get_char(i);
        let ghost sa = a@.subrange(i as int, la as int);
        let ghost sb = b@.subrange(i as int, lb as int);
        assert(sa[0] == ca && sb[0] == cb);
        if ca != cb {
            return (ca as u32) < (cb as u32);
        }
        assert(sa.drop_first() =~= a@.subrange(i + 1, la as int));
        assert(sb.drop_first() =~= b@.subrange(i + 1, lb as int));
        i = i + 1;
    }
    i < lb
}

fn entry_less(name: &String, is_dir: bool, other: &File) -> (r: bool)
    ensures
        r == entry_lt((name@, is_dir), other@),
{
    if is_dir != other.is_dir {
        is_dir
    } else {
        name_less(name, &other.name)
    }
}

/// Lists a directory whose children are `entries`: hidden names are dropped
/// unless `show_hidden`, then directories come first and names ascend.
pub fn list_dir(entries: &Vec<DirEntry>, show_hidden: bool) -> (r: Vec<File>)
    ensures
        file_views(r@) == listing(raw_views(entries@), show_hidden),
        is_sorted(file_views(r@)),
        forall|x: EntryModel| #[trigger]
            file_views(r@).contains(x) <==> (raw_views(entries@).contains(x) && is_shown(
                x,
                show_hidden,
            )),
        forall|i: int| 0 <= i < r.len() ==> (#[trigger] r[i]).wf(),
{
    let mut files: Vec<File> = Vec::new();
    let mut i: usize = 0;
    while i < entries.len()
        invariant
            i <= entries.len(),
            file_views(files@) == listing(raw_views(entries@.take(i as int)), show_hidden),
            forall|k: int| 0 <= k < files.len() ==> (#[trigger] files[k]).wf(),
        decreases entries.len() - i,
    {
        let entry = &entries[i];
        let ghost prefix = raw_views(entries@.take(i as int));
        let ghost next = raw_views(entries@.take(i + 1));
        assert(next.drop_last() =~= prefix);
        assert(next.last() == entry@);
        if show_hidden || !is_hidden_name(&entry.name) {
            let mut j: usize = 0;
            while j < files.len() && !entry_less(&entry.name, entry.is_dir, &files[j])
                invariant
                    j <= files.len(),
                    forall|k: int| 0 <= k < j ==> !entry_lt(entry@, #[trigger] file_views(files@)[k]),
                decreases files.len() - j,
            {
                j = j + 1;
            }
            let ghost before = file_views(files@);
            proof {
                lemma_insert_sorted_at(before, entry@, j as int);
            }
            let file = File::new(entry.name.clone(), entry.is_dir);
            files.insert(j, file);
            assert(file_views(files@) =~= before.insert(j as int, entry@));
        }
        i = i + 1;
    }
    assert(entries@.take(entries.len() as int) =~= entries@);
    proof {
        lemma_listing(raw_views(entries@), show_hidden);
    }
    files
}

} // verus!
