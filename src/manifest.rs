//! The scene-file manifest: one import line per scene file under the asset
//! directory, ordered by path.
use vstd::prelude::*;

use crate::explorer::texts;
use crate::paths::opt_view;

verus! {

/// A scene file: its path below the asset directory, as segments, and the
/// name it is imported under.
#[derive(Clone, Debug)]
pub struct ManifestEntry {
    path: Vec<String>,
    name: String,
}

impl ManifestEntry {
    pub closed spec fn path_view(&self) -> Seq<Seq<char>> {
        texts(self.path@)
    }

    pub closed spec fn name_view(&self) -> Seq<char> {
        self.name@
    }

    pub fn new(path: Vec<String>, name: String) -> (r: ManifestEntry)
        ensures
            r.path_view() == texts(path@),
            r.name_view() == name@,
    {
        ManifestEntry { path, name }
    }

    pub fn path(&self) -> (r: &Vec<String>)
        ensures
            texts(r@) == self.path_view(),
    {
        &self.path
    }

    pub fn name(&self) -> (r: &String)
        ensures
            r@ == self.name_view(),
    {
        &self.name
    }
}

/// Text order: by character code, a proper prefix first. For UTF-8 text
/// this is the order of the bytes.
pub open spec fn text_lt(a: Seq<char>, b: Seq<char>) -> bool
    decreases a.len(),
{
    if a.len() == 0 {
        b.len() > 0
    } else if b.len() == 0 {
        false
    } else if a[0] != b[0] {
        (a[0] as u32) < (b[0] as u32)
    } else {
        text_lt(a.drop_first(), b.drop_first())
    }
}

/// Path order: segment by segment, a proper prefix first.
pub open spec fn path_lt(a: Seq<Seq<char>>, b: Seq<Seq<char>>) -> bool
    decreases a.len(),
{
    if a.len() == 0 {
        b.len() > 0
    } else if b.len() == 0 {
        false
    } else if a[0] != b[0] {
        text_lt(a[0], b[0])
    } else {
        path_lt(a.drop_first(), b.drop_first())
    }
}

pub fn text_less(a: &str, b: &str) -> (r: bool)
    ensures
        r == text_lt(a@, b@),
{
    let n = a.unicode_len();
    let m = b.unicode_len();
    let mut i: usize = 0;
    assert(a@.subrange(0, n as int) =~= a@);
    assert(b@.subrange(0, m as int) =~= b@);
    while i < n && i < m
        invariant
            n == a@.len(),
            m == b@.len(),
            i <= n,
            i <= m,
            text_lt(a@, b@) == text_lt(
                a@.subrange(i as int, n as int),
                b@.subrange(i as int, m as int),
            ),
        decreases n - i,
    {
        let x = a.get_char(i);
        let y = b.get_char(i);
        let ghost sa = a@.subrange(i as int, n as int);
        let ghost sb = b@.subrange(i as int, m as int);
        assert(sa[0] == x && sb[0] == y);
        if x != y {
            return (x as u32) < (y as u32);
        }
        assert(sa.drop_first() =~= a@.subrange(i + 1, n as int));
        assert(sb.drop_first() =~= b@.subrange(i + 1, m as int));
        i = i + 1;
    }
    i == n && i < m
}

pub fn path_less(a: &Vec<String>, b: &Vec<String>) -> (r: bool)
    ensures
        r == path_lt(texts(a@), texts(b@)),
{
    let n = a.len();
    let m = b.len();
    let mut i: usize = 0;
    let ghost ta = texts(a@);
    let ghost tb = texts(b@);
    assert(ta.subrange(0, n as int) =~= ta);
    assert(tb.subrange(0, m as int) =~= tb);
    while i < n && i < m
        invariant
            n == a@.len() == ta.len(),
            m == b@.len() == tb.len(),
            ta == texts(a@),
            tb == texts(b@),
            i <= n,
            i <= m,
            path_lt(ta, tb) == path_lt(
                ta.subrange(i as int, n as int),
                tb.subrange(i as int, m as int),
            ),
        decreases n - i,
    {
        let ghost sa = ta.subrange(i as int, n as int);
        let ghost sb = tb.subrange(i as int, m as int);
        assert(sa[0] == a@[i as int]@ && sb[0] == b@[i as int]@);
        if !(a[i] == b[i]) {
            return text_less(a[i].as_str(), b[i].as_str());
        }
        assert(sa.drop_first() =~= ta.subrange(i + 1, n as int));
        assert(sb.drop_first() =~= tb.subrange(i + 1, m as int));
        i = i + 1;
    }
    i == n && i < m
}


pub proof fn lemma_text_lt_irreflexive(a: Seq<char>)
    ensures
        !text_lt(a, a),
    decreases a.len(),
{
    if a.len() > 0 {
        lemma_text_lt_irreflexive(a.drop_first());
    }
}

pub proof fn lemma_text_lt_transitive(a: Seq<char>, b: Seq<char>, c: Seq<char>)
    requires
        text_lt(a, b),
        text_lt(b, c),
    ensures
        text_lt(a, c),
    decreases a.len(),
{
    if a.len() > 0 && a[0] == b[0] && b[0] == c[0] {
        lemma_text_lt_transitive(a.drop_first(), b.drop_first(), c.drop_first());
    }
}

pub proof fn lemma_path_lt_irreflexive(a: Seq<Seq<char>>)
    ensures
        !path_lt(a, a),
    decreases a.len(),
{
    if a.len() > 0 {
        lemma_path_lt_irreflexive(a.drop_first());
    }
}

pub proof fn lemma_path_lt_transitive(a: Seq<Seq<char>>, b: Seq<Seq<char>>, c: Seq<Seq<char>>)
    requires
        path_lt(a, b),
        path_lt(b, c),
    ensures
        path_lt(a, c),
    decreases a.len(),
{
    if a.len() > 0 && b.len() > 0 && c.len() > 0 {
        if a[0] == b[0] && b[0] == c[0] {
            lemma_path_lt_transitive(a.drop_first(), b.drop_first(), c.drop_first());
        } else if a[0] != b[0] && b[0] != c[0] {
            lemma_text_lt_transitive(a[0], b[0], c[0]);
            if a[0] == c[0] {
                lemma_text_lt_irreflexive(a[0]);
            }
        }
    }
}

/// No entry is followed by one with a smaller path.
pub open spec fn ordered_by_path(t: Seq<ManifestEntry>) -> bool {
    forall|i: int, j: int|
        0 <= i < j < t.len() ==> !path_lt(#[trigger] t[j].path_view(), #[trigger] t[i].path_view())
}

/// Where an entry with path `p` goes among `t`, searching from `j`: before
/// the first entry whose path is greater.
pub open spec fn first_after(t: Seq<ManifestEntry>, p: Seq<Seq<char>>, j: int) -> int
    decreases t.len() - j,
{
    if j >= t.len() {
        t.len() as int
    } else if path_lt(p, t[j].path_view()) {
        j
    } else {
        first_after(t, p, j + 1)
    }
}

pub open spec fn insert_in_order(t: Seq<ManifestEntry>, e: ManifestEntry) -> Seq<ManifestEntry> {
    t.insert(first_after(t, e.path_view(), 0), e)
}

/// The entries named otherwise than `manifest`, ordered by path; entries
/// with equal paths keep their order.
pub open spec fn manifest_order(s: Seq<ManifestEntry>) -> Seq<ManifestEntry>
    decreases s.len(),
{
    if s.len() == 0 {
        Seq::empty()
    } else if s.last().name_view() == "manifest"@ {
        manifest_order(s.drop_last())
    } else {
        insert_in_order(manifest_order(s.drop_last()), s.last())
    }
}

proof fn lemma_first_after_bounds(t: Seq<ManifestEntry>, p: Seq<Seq<char>>, j: int)
    requires
        0 <= j <= t.len(),
    ensures
        j <= first_after(t, p, j) <= t.len(),
        forall|k: int| j <= k < first_after(t, p, j) ==> !path_lt(p, #[trigger] t[k].path_view()),
        first_after(t, p, j) < t.len() ==> path_lt(p, t[first_after(t, p, j)].path_view()),
    decreases t.len() - j,
{
    if j < t.len() && !path_lt(p, t[j].path_view()) {
        lemma_first_after_bounds(t, p, j + 1);
    }
}

proof fn lemma_insert_keeps_order(t: Seq<ManifestEntry>, e: ManifestEntry)
    requires
        ordered_by_path(t),
    ensures
        ordered_by_path(insert_in_order(t, e)),
{
    let pos = first_after(t, e.path_view(), 0);
    lemma_first_after_bounds(t, e.path_view(), 0);
    let r = insert_in_order(t, e);
    assert forall|i: int, j: int| 0 <= i < j < r.len() implies !path_lt(
        #[trigger] r[j].path_view(),
        #[trigger] r[i].path_view(),
    ) by {
        if j == pos {
            assert(r[i] == t[i]);
        } else if i == pos {
            let k = j - 1;
            assert(r[j] == t[k]);
            if path_lt(t[k].path_view(), e.path_view()) {
                if k == pos {
                    lemma_path_lt_transitive(e.path_view(), t[k].path_view(), e.path_view());
                    lemma_path_lt_irreflexive(e.path_view());
                } else {
                    lemma_path_lt_transitive(t[k].path_view(), e.path_view(), t[pos].path_view());
                }
            }
        } else {
            let a = if i < pos { i } else { i - 1 };
            let b = if j < pos { j } else { j - 1 };
            assert(r[i] == t[a] && r[j] == t[b]);
        }
    }
}

/// The manifest lists its entries ordered by path.
pub proof fn lemma_manifest_order_sorted(s: Seq<ManifestEntry>)
    ensures
        ordered_by_path(manifest_order(s)),
    decreases s.len(),
{
    if s.len() > 0 {
        lemma_manifest_order_sorted(s.drop_last());
        if s.last().name_view() != "manifest"@ {
            lemma_insert_keeps_order(manifest_order(s.drop_last()), s.last());
        }
    }
}

/// The entries not named `manifest`, in their order.
pub open spec fn kept(s: Seq<ManifestEntry>) -> Seq<ManifestEntry>
    decreases s.len(),
{
    if s.len() == 0 {
        Seq::empty()
    } else if s.last().name_view() == "manifest"@ {
        kept(s.drop_last())
    } else {
        kept(s.drop_last()).push(s.last())
    }
}

/// The manifest lists each entry not named `manifest`, as often as it was
/// given, and no other.
pub proof fn lemma_manifest_order_permutes(s: Seq<ManifestEntry>)
    ensures
        manifest_order(s).to_multiset() == kept(s).to_multiset(),
    decreases s.len(),
{
    broadcast use vstd::seq_lib::to_multiset_build, vstd::seq_lib::to_multiset_insert;

    if s.len() > 0 {
        lemma_manifest_order_permutes(s.drop_last());
        let t = manifest_order(s.drop_last());
        lemma_first_after_bounds(t, s.last().path_view(), 0);
    } else {
        assert(manifest_order(s) =~= kept(s));
    }
}

/// Path segments joined by `/`.
pub open spec fn joined_segments(cs: Seq<Seq<char>>) -> Seq<char>
    decreases cs.len(),
{
    if cs.len() == 0 {
        Seq::empty()
    } else if cs.len() == 1 {
        cs[0]
    } else {
        joined_segments(cs.drop_last()) + "/"@ + cs.last()
    }
}

/// `"<path>" as <name>`
pub open spec fn import_line(e: ManifestEntry) -> Seq<char> {
    "\""@ + joined_segments(e.path_view()) + "\" as "@ + e.name_view()
}

/// The header line, then one import line per entry, joined by newlines.
pub open spec fn manifest_text(s: Seq<ManifestEntry>) -> Seq<char>
    decreases s.len(),
{
    if s.len() == 0 {
        "#manifest"@
    } else {
        manifest_text(s.drop_last()) + "\n"@ + import_line(s.last())
    }
}

fn segments_text(cs: &Vec<String>) -> (r: String)
    ensures
        r@ == joined_segments(texts(cs@)),
{
    let mut r = String::new();
    let mut i: usize = 0;
    while i < cs.len()
        invariant
            i <= cs@.len(),
            r@ == joined_segments(texts(cs@.subrange(0, i as int))),
        decreases cs@.len() - i,
    {
        let ghost before = texts(cs@.subrange(0, i as int));
        if i > 0 {
            r.append("/");
        }
        r.append(cs[i].as_str());
        proof {
            let now = texts(cs@.subrange(0, i + 1));
            assert(now.drop_last() =~= before);
            if i == 0 {
                assert(before.len() == 0);
                assert(r@ =~= now[0]);
            }
        }
        i = i + 1;
    }
    assert(cs@.subrange(0, cs@.len() as int) =~= cs@);
    r
}

fn import_text(e: &ManifestEntry) -> (r: String)
    ensures
        r@ == import_line(*e),
{
    let mut r = String::from_str("\"");
    let p = segments_text(&e.path);
    r.append(p.as_str());
    r.append("\" as ");
    r.append(e.name.as_str());
    r
}

fn insert_sorted(out: &mut Vec<ManifestEntry>, e: ManifestEntry)
    ensures
        final(out)@ == insert_in_order(old(out)@, e),
{
    let ghost t = out@;
    let mut j: usize = 0;
    let mut found = false;
    while j < out.len() && !found
        invariant
            out@ == t,
            j <= t.len(),
            first_after(t, e.path_view(), 0) == first_after(t, e.path_view(), j as int),
            found ==> j < t.len() && first_after(t, e.path_view(), j as int) == j,
        decreases t.len() - j + (if found { 0int } else { 1int }),
    {
        if path_less(&e.path, &out[j].path) {
            found = true;
        } else {
            j = j + 1;
        }
    }
    out.insert(j, e);
}

/// The manifest text: a `#manifest` line, then an import line for each
/// entry not named `manifest`, ordered by path.
pub fn get_cobweb_manifest(entries: Vec<ManifestEntry>) -> (r: String)
    ensures
        r@ == manifest_text(manifest_order(entries@)),
{
    let ghost s = entries@;
    let mut rest = entries;
    let mut ordered: Vec<ManifestEntry> = Vec::new();
    let skipped = String::from_str("manifest");
    let ghost mut k: int = 0;
    assert(s.subrange(0, 0) =~= Seq::<ManifestEntry>::empty());
    assert(s.subrange(0, s.len() as int) =~= s);
    while rest.len() > 0
        invariant
            0 <= k <= s.len(),
            rest@ == s.subrange(k, s.len() as int),
            ordered@ == manifest_order(s.subrange(0, k)),
            skipped@ == "manifest"@,
        decreases rest@.len(),
    {
        let e = rest.remove(0);
        proof {
            assert(s.subrange(0, k + 1).drop_last() =~= s.subrange(0, k));
            assert(rest@ =~= s.subrange(k + 1, s.len() as int));
        }
        if !(e.name == skipped) {
            insert_sorted(&mut ordered, e);
        }
        proof {
            k = k + 1;
        }
    }
    let mut r = String::from_str("#manifest");
    let mut i: usize = 0;
    let ghost o = ordered@;
    assert(o.subrange(0, 0) =~= Seq::<ManifestEntry>::empty());
    while i < ordered.len()
        invariant
            ordered@ == o,
            i <= o.len(),
            r@ == manifest_text(o.subrange(0, i as int)),
        decreases o.len() - i,
    {
        r.append("\n");
        let line = import_text(&ordered[i]);
        r.append(line.as_str());
        assert(o.subrange(0, i + 1).drop_last() =~= o.subrange(0, i as int));
        i = i + 1;
    }
    assert(o.subrange(0, o.len() as int) =~= o);
    r
}


/// `<prefix>_<name>`, or `name` alone without a prefix.
pub open spec fn prefixed_name(prefix: Option<Seq<char>>, name: Seq<char>) -> Seq<char> {
    match prefix {
        Some(p) => p + "_"@ + name,
        None => name,
    }
}

pub fn prefixed(prefix: &Option<String>, name: &str) -> (r: String)
    ensures
        r@ == prefixed_name(opt_view(*prefix), name@),
{
    match prefix {
        Some(p) => {
            let mut r = p.clone();
            r.append("_");
            r.append(name);
            r
        },
        None => String::from_str(name),
    }
}

/// What the walk does with a directory entry.
#[derive(Clone, Copy, Debug, PartialEq, Eq, Structural)]
pub enum EntryAction {
    /// A scene file: it gets an import line.
    Include,
    /// A directory: its entries are walked, with its name added to the prefix.
    Descend,
    Skip,
}

pub open spec fn action_of(is_file: bool, is_dir: bool, extension: Option<Seq<char>>) -> EntryAction {
    if is_file && extension == Some("cob"@) {
        EntryAction::Include
    } else if is_dir {
        EntryAction::Descend
    } else {
        EntryAction::Skip
    }
}

pub fn entry_action(is_file: bool, is_dir: bool, extension: &Option<String>) -> (r: EntryAction)
    ensures
        r == action_of(is_file, is_dir, opt_view(*extension)),
{
    let cob = String::from_str("cob");
    let scene = match extension {
        Some(e) => *e == cob,
        None => false,
    };
    if is_file && scene {
        EntryAction::Include
    } else if is_dir {
        EntryAction::Descend
    } else {
        EntryAction::Skip
    }
}

/// The entry for a scene file at `path` (its first segment, the asset
/// directory, left out) with file stem `stem`.
pub fn file_entry(path: &Vec<String>, stem: &str, prefix: &Option<String>) -> (r: ManifestEntry)
    ensures
        r.path_view() == (if path@.len() == 0 {
            Seq::empty()
        } else {
            texts(path@).drop_first()
        }),
        r.name_view() == prefixed_name(opt_view(*prefix), stem@),
{
    let mut segs: Vec<String> = Vec::new();
    if path.len() == 0 {
        assert(texts(segs@) =~= Seq::empty());
        return ManifestEntry::new(segs, prefixed(prefix, stem));
    }
    let mut i: usize = 1;
    assert(texts(segs@) =~= texts(path@).subrange(1, 1));
    while i < path.len()
        invariant
            1 <= i <= path@.len(),
            texts(segs@) == texts(path@).subrange(1, i as int),
        decreases path@.len() - i,
    {
        let ghost before = segs@;
        let seg = path[i].clone();
        assert(seg == path@[i as int]);
        segs.push(seg);
        assert(segs@ == before.push(path@[i as int]));
        assert(texts(segs@) =~= texts(before).push(path@[i as int]@));
        assert(texts(segs@) =~= texts(path@).subrange(1, i + 1));
        i = i + 1;
    }
    assert(texts(segs@) =~= texts(path@).drop_first());
    ManifestEntry::new(segs, prefixed(prefix, stem))
}

} // verus!
