//! The file tree of a project: a directory listing read from disk is
//! filtered, ordered and annotated into nested entries.
use vstd::prelude::*;
use crate::classify::{
    binary_name, detect_language, excluded, hidden, is_binary_extension, is_hidden,
    language_of, opt_string_view, should_exclude_entry,
};
use crate::order::{entry_before, entry_less, lemma_name_order, name_lt};

verus! {

broadcast use vstd::std_specs::vec::group_vec_axioms, vstd::seq::group_seq_axioms;

/// One entry of a directory as read from disk; `children` holds the listing
/// of a directory and is empty for a file.
pub struct RawEntry {
    pub name: String,
    pub is_dir: bool,
    pub size: Option<u64>,
    pub children: Vec<RawEntry>,
}

/// One node of a project's file tree. A file has no `children`; a
/// directory has no `size` nor `language`.
pub struct TreeEntry {
    pub name: String,
    pub path: String,
    pub is_dir: bool,
    pub size: Option<u64>,
    pub language: Option<String>,
    pub children: Option<Vec<TreeEntry>>,
}

/// The root-relative path of an entry named `name` in the directory at `parent`.
pub open spec fn child_path(parent: Seq<char>, name: Seq<char>) -> Seq<char> {
    if parent.len() == 0 {
        name
    } else {
        parent + "/"@ + name
    }
}

/// Names within one listing are distinct, at every depth.
pub open spec fn listing_wf(raw: Seq<RawEntry>) -> bool
    decreases raw,
{
    (forall|i: int, j: int|
        0 <= i < raw.len() && 0 <= j < raw.len() && i != j ==> #[trigger] raw[i].name@
            != #[trigger] raw[j].name@) && (forall|i: int|
        0 <= i < raw.len() ==> listing_wf(#[trigger] raw[i].children@))
}

/// Not dropped by the exclusion lists nor hidden.
pub open spec fn visible(e: RawEntry) -> bool {
    !excluded(e.name@, e.is_dir) && !hidden(e.name@)
}

/// Whether an entry appears in the tree: a visible file without a binary
/// extension, or a visible directory with at least one entry that appears.
pub open spec fn shown(e: RawEntry) -> bool
    decreases e,
{
    visible(e) && if e.is_dir {
        exists|i: int| 0 <= i < e.children@.len() && shown(#[trigger] e.children@[i])
    } else {
        !binary_name(e.name@)
    }
}

/// Listed directories first, then files; names ascending within each kind.
pub open spec fn sorted(out: Seq<TreeEntry>) -> bool {
    forall|a: int, b: int|
        0 <= a < b < out.len() ==> entry_before(
            #[trigger] out[a].is_dir,
            out[a].name@,
            #[trigger] out[b].is_dir,
            out[b].name@,
        )
}

/// `t` is the node that the entry `e` of the directory at `parent` becomes.
pub open spec fn node_of(e: RawEntry, parent: Seq<char>, t: TreeEntry) -> bool
    decreases e, 2int,
{
    t.name@ == e.name@ && t.path@ == child_path(parent, e.name@) && t.is_dir == e.is_dir && if e.is_dir {
        t.size is None && t.language is None && match t.children {
            Some(c) => level_of(e.children@, t.path@, c@),
            None => false,
        }
    } else {
        t.size == e.size && opt_string_view(t.language) == language_of(e.name@)
            && t.children is None
    }
}

/// The node at position `j` of a listing.
pub open spec fn listed(out: Seq<TreeEntry>, j: int) -> TreeEntry {
    out[j]
}

/// `t` is the node of some entry of `raw` that appears.
pub open spec fn node_from(raw: Seq<RawEntry>, parent: Seq<char>, t: TreeEntry) -> bool
    decreases raw, 0int,
{
    exists|i: int| 0 <= i < raw.len() && #[trigger] shown(raw[i]) && node_of(raw[i], parent, t)
}

/// `out` is the tree listing of the directory at `parent` whose entries
/// are `raw`: one node for each entry that appears, and nothing else, in
/// listing order.
pub open spec fn level_of(raw: Seq<RawEntry>, parent: Seq<char>, out: Seq<TreeEntry>) -> bool
    decreases raw, 1int,
{
    (forall|j: int| 0 <= j < out.len() ==> node_from(raw, parent, #[trigger] listed(out, j)))
        && (forall|i: int|
        0 <= i < raw.len() && #[trigger] shown(raw[i]) ==> exists|j: int|
            0 <= j < out.len() && node_of(raw[i], parent, #[trigger] out[j])) && sorted(out)
}

/// The root-relative path of `name` inside the directory at `parent`,
/// joined with a forward slash.
pub fn join_path(parent: &str, name: &str) -> (r: String)
    ensures
        r@ == child_path(parent@, name@),
{
    if parent.unicode_len() == 0 {
        name.to_owned()
    } else {
        let mut s = parent.to_owned();
        s.append("/");
        s.append(name);
        s
    }
}

/// Puts `x` into a sorted listing at its place; returns that place.
fn insert_sorted(out: &mut Vec<TreeEntry>, x: TreeEntry) -> (k: usize)
    requires
        sorted(old(out)@),
        forall|j: int| 0 <= j < old(out)@.len() ==> #[trigger] old(out)@[j].name@ != x.name@,
    ensures
        k <= old(out)@.len(),
        final(out)@ == old(out)@.insert(k as int, x),
        sorted(final(out)@),
{
    let mut p: usize = 0;
    while p < out.len() && entry_less(out[p].is_dir, &out[p].name, x.is_dir, &x.name)
        invariant
            p <= out@.len(),
            forall|j: int|
                0 <= j < p ==> entry_before(
                    #[trigger] out@[j].is_dir,
                    out@[j].name@,
                    x.is_dir,
                    x.name@,
                ),
        decreases out@.len() - p,
    {
        p = p + 1;
    }
    let ghost before = out@;
    proof {
        assert forall|j: int| p <= j < before.len() implies entry_before(
            x.is_dir,
            x.name@,
            #[trigger] before[j].is_dir,
            before[j].name@,
        ) by {
            let q = before[p as int];
            lemma_name_order(q.name@, x.name@, x.name@);
            lemma_name_order(x.name@, q.name@, before[j].name@);
            lemma_name_order(x.name@, q.name@, q.name@);
            if j > p {
                assert(entry_before(q.is_dir, q.name@, before[j].is_dir, before[j].name@));
            }
        }
    }
    out.insert(p, x);
    proof {
        let after = out@;
        assert forall|a: int, b: int| 0 <= a < b < after.len() implies entry_before(
            #[trigger] after[a].is_dir,
            after[a].name@,
            #[trigger] after[b].is_dir,
            after[b].name@,
        ) by {
            if a < p && b == p {
            } else if a < p && b > p {
                let m = before[a];
                lemma_name_order(m.name@, x.name@, after[b].name@);
            } else if a < p {
            } else if a == p {
            } else {
                assert(after[a] == before[a - 1]);
                assert(after[b] == before[b - 1]);
            }
        }
    }
    p
}

/// Builds the tree listing of the directory at `parent` (root-relative,
/// empty for the project root) from its entries as read from disk.
pub fn build_tree(entries: &Vec<RawEntry>, parent: &str) -> (r: Vec<TreeEntry>)
    requires
        listing_wf(entries@),
    ensures
        level_of(entries@, parent@, r@),
    decreases entries@,
{
    let mut out: Vec<TreeEntry> = Vec::new();
    let mut i: usize = 0;
    while i < entries.len()
        invariant
            i <= entries@.len(),
            listing_wf(entries@),
            sorted(out@),
            forall|j: int| 0 <= j < out@.len() ==> #[trigger] node_from(entries@, parent@, out@[j]),
            forall|j: int, m: int|
                0 <= j < out@.len() && i <= m < entries@.len() ==> #[trigger] out@[j].name@
                    != #[trigger] entries@[m].name@,
            forall|m: int|
                0 <= m < i && #[trigger] shown(entries@[m]) ==> exists|j: int|
                    0 <= j < out@.len() && #[trigger] node_of(entries@[m], parent@, out@[j]),
        decreases entries@.len() - i,
    {
        let e = &entries[i];
        let ghost ge = entries@[i as int];
        let mut node: Option<TreeEntry> = None;
        if !should_exclude_entry(&e.name, e.is_dir) && !is_hidden(&e.name) {
            let path = join_path(parent, &e.name);
            if e.is_dir {
                proof {
                    assert(decreases_to!(entries@ => entries@[i as int].children@));
                    assert(listing_wf(ge.children@));
                    assert(ge.children@ == e.children@);
                }
                let children = build_tree(&e.children, &path);
                if children.len() > 0 {
                    let ghost c = children@;
                    let t = TreeEntry {
                        name: e.name.clone(),
                        path,
                        is_dir: true,
                        size: None,
                        language: None,
                        children: Some(children),
                    };
                    proof {
                        reveal_with_fuel(level_of, 3);
                        let t0 = c[0];
                        assert(listed(c, 0) == t0);
                        assert(node_from(ge.children@, path@, t0));
                        let k = choose|k: int|
                            0 <= k < ge.children@.len() && #[trigger] shown(ge.children@[k]) && node_of(
                                ge.children@[k],
                                path@,
                                t0,
                            );
                        assert(shown(ge.children@[k]));
                        assert(shown(ge));
                        assert(node_of(ge, parent@, t));
                    }
                    node = Some(t);
                } else {
                    proof {
                        reveal_with_fuel(level_of, 3);
                        if shown(ge) {
                            let k = choose|k: int|
                                0 <= k < ge.children@.len() && shown(#[trigger] ge.children@[k]);
                            assert(level_of(ge.children@, path@, children@));
                            assert(shown(ge.children@[k]));
                            assert(false);
                        }
                    }
                }
            } else if !is_binary_extension(&e.name) {
                let t = TreeEntry {
                    name: e.name.clone(),
                    path,
                    is_dir: false,
                    size: e.size,
                    language: detect_language(&e.name),
                    children: None,
                };
                assert(node_of(ge, parent@, t));
                assert(shown(ge));
                node = Some(t);
            }
        }
        proof {
            assert(ge == entries@[i as int]);
            match &node {
                Some(t) => {
                    assert(shown(ge) && node_of(ge, parent@, *t));
                },
                None => {
                    assert(!shown(ge));
                },
            }
        }
        match node {
            Some(t) => {
                let ghost prev = out@;
                let ghost gt = t;
                proof {
                    assert forall|j: int| 0 <= j < prev.len() implies #[trigger] prev[j].name@
                        != gt.name@ by {
                        assert(prev[j].name@ != entries@[i as int].name@);
                    }
                }
                let k = insert_sorted(&mut out, t);
                proof {
                    assert(node_from(entries@, parent@, gt));
                    assert forall|j: int| 0 <= j < out@.len() implies #[trigger] node_from(
                        entries@,
                        parent@,
                        out@[j],
                    ) by {
                        if j < k {
                            assert(out@[j] == prev[j]);
                        } else if j > k {
                            assert(out@[j] == prev[j - 1]);
                        }
                    }
                    assert forall|j: int, m: int|
                        0 <= j < out@.len() && i + 1 <= m < entries@.len() implies #[trigger] out@[j].name@
                        != #[trigger] entries@[m].name@ by {
                        if j < k {
                            assert(out@[j] == prev[j]);
                        } else if j > k {
                            assert(out@[j] == prev[j - 1]);
                        } else {
                            assert(entries@[i as int].name@ != entries@[m].name@);
                        }
                    }
                    assert forall|m: int|
                        0 <= m < i + 1 && #[trigger] shown(entries@[m]) implies exists|j: int|
                        0 <= j < out@.len() && #[trigger] node_of(entries@[m], parent@, out@[j]) by {
                        if m == i {
                            assert(out@[k as int] == gt);
                        } else {
                            let j0 = choose|j0: int|
                                0 <= j0 < prev.len() && #[trigger] node_of(
                                    entries@[m],
                                    parent@,
                                    prev[j0],
                                );
                            if j0 < k {
                                assert(out@[j0] == prev[j0]);
                            } else {
                                assert(out@[j0 + 1] == prev[j0]);
                            }
                        }
                    }
                }
            },
            None => {
                proof {
                    assert forall|m: int|
                        0 <= m < i + 1 && #[trigger] shown(entries@[m]) implies exists|j: int|
                        0 <= j < out@.len() && #[trigger] node_of(entries@[m], parent@, out@[j]) by {
                        if m == i {
                            assert(!shown(entries@[m]));
                        }
                    }
                }
            },
        }
        i = i + 1;
    }
    proof {
        assert forall|j: int| 0 <= j < out@.len() implies node_from(
            entries@,
            parent@,
            #[trigger] listed(out@, j),
        ) by {
            assert(listed(out@, j) == out@[j]);
        }
    }
    out
}

/// In a tree listing every directory precedes every file, and entries of
/// the same kind ascend by name, whatever order the disk listed them in.
pub proof fn lemma_directories_first(raw: Seq<RawEntry>, parent: Seq<char>, out: Seq<TreeEntry>)
    requires
        level_of(raw, parent, out),
    ensures
        forall|a: int, b: int|
            0 <= a < b < out.len() ==> (#[trigger] out[b].is_dir ==> #[trigger] out[a].is_dir),
        forall|a: int, b: int|
            0 <= a < b < out.len() && #[trigger] out[a].is_dir == #[trigger] out[b].is_dir
                ==> name_lt(out[a].name@, out[b].name@),
{
    assert forall|a: int, b: int| 0 <= a < b < out.len() implies (#[trigger] out[b].is_dir
        ==> #[trigger] out[a].is_dir) by {
        assert(entry_before(out[a].is_dir, out[a].name@, out[b].is_dir, out[b].name@));
    }
    assert forall|a: int, b: int|
        0 <= a < b < out.len() && #[trigger] out[a].is_dir == #[trigger] out[b].is_dir implies name_lt(
        out[a].name@,
        out[b].name@,
    ) by {
        assert(entry_before(out[a].is_dir, out[a].name@, out[b].is_dir, out[b].name@));
    }
}

/// The listing position of a node: its kind and its name.
pub open spec fn key_of(t: TreeEntry) -> (bool, Seq<char>) {
    (t.is_dir, t.name@)
}

pub open spec fn keys_sorted(s: Seq<(bool, Seq<char>)>) -> bool {
    forall|a: int, b: int|
        0 <= a < b < s.len() ==> entry_before(#[trigger] s[a].0, s[a].1, #[trigger] s[b].0, s[b].1)
}

proof fn lemma_sorted_keys_equal(s1: Seq<(bool, Seq<char>)>, s2: Seq<(bool, Seq<char>)>)
    requires
        keys_sorted(s1),
        keys_sorted(s2),
        forall|i: int| 0 <= i < s1.len() ==> s2.contains(#[trigger] s1[i]),
        forall|i: int| 0 <= i < s2.len() ==> s1.contains(#[trigger] s2[i]),
    ensures
        s1 == s2,
    decreases s1.len(),
{
    if s1.len() == 0 {
        if s2.len() > 0 {
            assert(s1.contains(s2[0]));
        }
        assert(s1 =~= s2);
    } else {
        assert(s2.contains(s1[0]));
        let a = s1[0];
        let b = s2[0];
        let p = choose|p: int| 0 <= p < s2.len() && s2[p] == a;
        assert(s1.contains(b));
        let q = choose|q: int| 0 <= q < s1.len() && s1[q] == b;
        lemma_name_order(a.1, b.1, a.1);
        lemma_name_order(b.1, a.1, b.1);
        if p > 0 && q > 0 {
            assert(entry_before(s2[0].0, s2[0].1, s2[p].0, s2[p].1));
            assert(entry_before(s1[0].0, s1[0].1, s1[q].0, s1[q].1));
        }
        assert(a == b);
        let t1 = s1.drop_first();
        let t2 = s2.drop_first();
        assert forall|i: int| 0 <= i < t1.len() implies t2.contains(#[trigger] t1[i]) by {
            let x = s1[i + 1];
            assert(entry_before(s1[0].0, s1[0].1, s1[i + 1].0, s1[i + 1].1));
            lemma_name_order(a.1, a.1, a.1);
            assert(x != a);
            assert(s2.contains(x));
            let r = choose|r: int| 0 <= r < s2.len() && s2[r] == x;
            assert(r != 0);
            assert(t2[r - 1] == x);
        }
        assert forall|i: int| 0 <= i < t2.len() implies t1.contains(#[trigger] t2[i]) by {
            let x = s2[i + 1];
            assert(entry_before(s2[0].0, s2[0].1, s2[i + 1].0, s2[i + 1].1));
            lemma_name_order(a.1, a.1, a.1);
            assert(x != a);
            assert(s1.contains(x));
            let r = choose|r: int| 0 <= r < s1.len() && s1[r] == x;
            assert(r != 0);
            assert(t1[r - 1] == x);
        }
        lemma_sorted_keys_equal(t1, t2);
        assert(s1.len() == s2.len());
        assert forall|k: int| 0 <= k < s1.len() implies s1[k] == s2[k] by {
            if k > 0 {
                assert(s1[k] == t1[k - 1]);
                assert(s2[k] == t2[k - 1]);
            }
        }
        assert(s1 =~= s2);
    }
}

proof fn lemma_keys_covered(
    raw1: Seq<RawEntry>,
    raw2: Seq<RawEntry>,
    parent: Seq<char>,
    out1: Seq<TreeEntry>,
    out2: Seq<TreeEntry>,
)
    requires
        level_of(raw1, parent, out1),
        level_of(raw2, parent, out2),
        forall|i: int| 0 <= i < raw1.len() ==> raw2.contains(#[trigger] raw1[i]),
    ensures
        forall|j: int|
            0 <= j < out1.len() ==> out2.map_values(|t: TreeEntry| key_of(t)).contains(
                #[trigger] key_of(out1[j]),
            ),
{
    reveal_with_fuel(level_of, 3);
    let k2 = out2.map_values(|t: TreeEntry| key_of(t));
    assert forall|j: int| 0 <= j < out1.len() implies k2.contains(#[trigger] key_of(out1[j])) by {
        assert(listed(out1, j) == out1[j]);
        assert(node_from(raw1, parent, out1[j]));
        let i = choose|i: int|
            0 <= i < raw1.len() && #[trigger] shown(raw1[i]) && node_of(raw1[i], parent, out1[j]);
        assert(raw2.contains(raw1[i]));
        let m = choose|m: int| 0 <= m < raw2.len() && raw2[m] == raw1[i];
        assert(shown(raw2[m]));
        let j2 = choose|j2: int| 0 <= j2 < out2.len() && node_of(raw2[m], parent, #[trigger] out2[j2]);
        assert(k2[j2] == key_of(out1[j]));
    }
}

/// The tree listing does not depend on the order in which the disk listed
/// a directory: two listings of the same entries give nodes of the same
/// kinds and names at the same positions.
pub proof fn lemma_order_independent(
    raw1: Seq<RawEntry>,
    raw2: Seq<RawEntry>,
    parent: Seq<char>,
    out1: Seq<TreeEntry>,
    out2: Seq<TreeEntry>,
)
    requires
        level_of(raw1, parent, out1),
        level_of(raw2, parent, out2),
        forall|i: int| 0 <= i < raw1.len() ==> raw2.contains(#[trigger] raw1[i]),
        forall|i: int| 0 <= i < raw2.len() ==> raw1.contains(#[trigger] raw2[i]),
    ensures
        out1.len() == out2.len(),
        forall|j: int|
            0 <= j < out1.len() ==> #[trigger] out1[j].name@ == out2[j].name@ && out1[j].is_dir
                == out2[j].is_dir,
{
    let k1 = out1.map_values(|t: TreeEntry| key_of(t));
    let k2 = out2.map_values(|t: TreeEntry| key_of(t));
    lemma_keys_covered(raw1, raw2, parent, out1, out2);
    lemma_keys_covered(raw2, raw1, parent, out2, out1);
    assert forall|i: int| 0 <= i < k1.len() implies k2.contains(#[trigger] k1[i]) by {
        assert(k1[i] == key_of(out1[i]));
    }
    assert forall|i: int| 0 <= i < k2.len() implies k1.contains(#[trigger] k2[i]) by {
        assert(k2[i] == key_of(out2[i]));
    }
    assert(keys_sorted(k1)) by {
        assert forall|a: int, b: int| 0 <= a < b < k1.len() implies entry_before(
            #[trigger] k1[a].0,
            k1[a].1,
            #[trigger] k1[b].0,
            k1[b].1,
        ) by {
            assert(entry_before(out1[a].is_dir, out1[a].name@, out1[b].is_dir, out1[b].name@));
        }
    }
    assert(keys_sorted(k2)) by {
        assert forall|a: int, b: int| 0 <= a < b < k2.len() implies entry_before(
            #[trigger] k2[a].0,
            k2[a].1,
            #[trigger] k2[b].0,
            k2[b].1,
        ) by {
            assert(entry_before(out2[a].is_dir, out2[a].name@, out2[b].is_dir, out2[b].name@));
        }
    }
    lemma_sorted_keys_equal(k1, k2);
    assert forall|j: int| 0 <= j < out1.len() implies #[trigger] out1[j].name@ == out2[j].name@
        && out1[j].is_dir == out2[j].is_dir by {
        assert(k1[j] == k2[j]);
    }
}

/// No directory in a tree listing is empty: a directory node always holds
/// at least one child. This holds at every depth, since each directory's
/// children are themselves such a listing.
pub proof fn lemma_no_empty_directory(raw: Seq<RawEntry>, parent: Seq<char>, out: Seq<TreeEntry>)
    requires
        level_of(raw, parent, out),
    ensures
        forall|j: int|
            0 <= j < out.len() && #[trigger] out[j].is_dir ==> match out[j].children {
                Some(c) => c@.len() > 0,
                None => false,
            },
{
    assert forall|j: int| 0 <= j < out.len() && #[trigger] out[j].is_dir implies match out[j].children {
        Some(c) => c@.len() > 0,
        None => false,
    } by {
        reveal_with_fuel(level_of, 3);
        assert(listed(out, j) == out[j]);
        assert(node_from(raw, parent, out[j]));
        let i = choose|i: int| 0 <= i < raw.len() && #[trigger] shown(raw[i]) && node_of(raw[i], parent, out[j]);
        let e = raw[i];
        let c = out[j].children.unwrap();
        assert(level_of(e.children@, out[j].path@, c@));
        let k = choose|k: int| 0 <= k < e.children@.len() && shown(#[trigger] e.children@[k]);
        assert(shown(e.children@[k]));
    }
}

} // verus!
