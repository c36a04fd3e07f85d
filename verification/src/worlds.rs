//! The worlds in the server's directory.

use crate::clock::LocalTime;
use crate::text::{chars_of, same};
use vstd::prelude::*;
use vstd::string::*;

verus! {

// ---------- Sizes ----------

/// What stands at a path: a file of some size, a directory, or nothing that
/// counts.
pub enum DirTree {
    File(u64),
    Dir(Vec<DirTree>),
    Nothing,
}

/// The bytes of all files of some trees.
pub open spec fn total_all(trees: Seq<DirTree>) -> nat
    decreases trees,
{
    if trees.len() == 0 {
        0
    } else {
        total_all(trees.drop_last()) + total(trees.last())
    }
}

/// The bytes of all files at and below a path.
pub open spec fn total(tree: DirTree) -> nat
    decreases tree,
{
    match tree {
        DirTree::File(n) => n as nat,
        DirTree::Dir(trees) => total_all(trees@),
        DirTree::Nothing => 0,
    }
}

proof fn lemma_total_all_grows(trees: Seq<DirTree>, n: int)
    requires
        0 <= n <= trees.len(),
    ensures
        total_all(trees.take(n)) <= total_all(trees),
    decreases trees.len(),
{
    if n == trees.len() {
        assert(trees.take(n) =~= trees);
    } else {
        lemma_total_all_grows(trees.drop_last(), n);
        assert(trees.drop_last().take(n) =~= trees.take(n));
    }
}

/// The bytes of all files at and below a path; `None` if they are too many to
/// count.
pub fn dir_size(tree: &DirTree) -> (r: Option<u64>)
    ensures
        r == if total(*tree) <= u64::MAX {
            Some(total(*tree) as u64)
        } else {
            None
        },
    decreases tree,
{
    match tree {
        DirTree::File(n) => Some(*n),
        DirTree::Nothing => Some(0),
        DirTree::Dir(trees) => {
            let mut sum: u64 = 0;
            let mut i: usize = 0;
            while i < trees.len()
                invariant
                    i <= trees@.len(),
                    *tree == DirTree::Dir(*trees),
                    sum == total_all(trees@.take(i as int)),
                decreases trees@.len() - i,
            {
                assert(decreases_to!(*tree => tree->Dir_0));
                assert(decreases_to!(*trees => trees@));
                assert(decreases_to!(trees@ => trees@[i as int]));
                proof {
                    let next = trees@.take(i + 1);
                    assert(next.drop_last() =~= trees@.take(i as int));
                    assert(next.last() == trees@[i as int]);
                    lemma_total_all_grows(trees@, i + 1);
                }
                match dir_size(&trees[i]) {
                    Some(n) => match sum.checked_add(n) {
                        Some(s) => {
                            sum = s;
                        },
                        None => {
                            return None;
                        },
                    },
                    None => {
                        return None;
                    },
                }
                i += 1;
            }
            assert(trees@.take(i as int) =~= trees@);
            Some(sum)
        },
    }
}

// ---------- The list ----------

/// A name in the server's directory, and what is known of it.
pub struct FoundDir {
    /// The name, where it is text.
    pub name: Option<String>,
    pub path: String,
    pub is_dir: bool,
    /// Whether it holds a `level.dat`.
    pub has_level: bool,
    pub size_bytes: u64,
    pub last_modified: Option<LocalTime>,
}

/// A world of the server.
pub struct WorldEntry {
    pub name: String,
    pub path: String,
    pub size_bytes: u64,
    pub last_modified: Option<LocalTime>,
    pub is_current: bool,
}

/// A [`WorldEntry`] as text.
pub struct WorldView {
    pub name: Seq<char>,
    pub path: Seq<char>,
    pub size_bytes: u64,
    pub last_modified: Option<LocalTime>,
    pub is_current: bool,
}

impl View for WorldEntry {
    type V = WorldView;

    open spec fn view(&self) -> WorldView {
        WorldView {
            name: self.name@,
            path: self.path@,
            size_bytes: self.size_bytes,
            last_modified: self.last_modified,
            is_current: self.is_current,
        }
    }
}

/// The worlds of a list.
pub open spec fn world_views(list: Seq<WorldEntry>) -> Seq<WorldView> {
    list.map_values(|w: WorldEntry| w@)
}

/// A directory with a `level.dat` is a world.
pub open spec fn is_world(f: FoundDir) -> bool {
    f.is_dir && f.has_level
}

/// The name that a world goes by.
pub open spec fn shown_name(f: FoundDir) -> Seq<char> {
    match f.name {
        Some(name) => name@,
        None => "?"@,
    }
}

/// The world in a directory, where the server is set to `current`.
pub open spec fn world_in(f: FoundDir, current: Seq<char>) -> WorldView {
    WorldView {
        name: shown_name(f),
        path: f.path@,
        size_bytes: f.size_bytes,
        last_modified: f.last_modified,
        is_current: shown_name(f) == current,
    }
}

/// The worlds among what was found, in the order found.
pub open spec fn worlds_in(found: Seq<FoundDir>, current: Seq<char>) -> Seq<WorldView>
    decreases found.len(),
{
    if found.len() == 0 {
        Seq::empty()
    } else {
        let before = worlds_in(found.drop_last(), current);
        if is_world(found.last()) {
            before.push(world_in(found.last(), current))
        } else {
            before
        }
    }
}

/// Text in the order of its characters, the shorter first where one begins the
/// other.
pub open spec fn text_before(a: Seq<char>, b: Seq<char>) -> bool
    decreases a.len(),
{
    if b.len() == 0 {
        false
    } else if a.len() == 0 {
        true
    } else if a[0] != b[0] {
        a[0] < b[0]
    } else {
        text_before(a.drop_first(), b.drop_first())
    }
}

/// The order of the list: the current world, then the others by name.
pub open spec fn world_before(a: WorldView, b: WorldView) -> bool {
    if a.is_current != b.is_current {
        a.is_current
    } else {
        text_before(a.name, b.name)
    }
}

/// Neither of two worlds comes before the other.
pub open spec fn same_rank(a: WorldView, b: WorldView) -> bool {
    a.is_current == b.is_current && a.name == b.name
}

/// `list` has no world before one that it should follow.
pub open spec fn in_order(list: Seq<WorldView>) -> bool {
    forall|i: int, j: int|
        0 <= i < j < list.len() ==> !world_before(#[trigger] list[j], #[trigger] list[i])
}

/// The worlds of `list` that rank as `w` does.
pub open spec fn ranked(list: Seq<WorldView>, w: WorldView) -> Seq<WorldView> {
    list.filter(|x: WorldView| same_rank(x, w))
}

/// `list` is `found` in order, with worlds of the same rank as they were
/// found.
pub open spec fn is_ordering(list: Seq<WorldView>, found: Seq<WorldView>) -> bool {
    in_order(list) && forall|w: WorldView| #[trigger] ranked(list, w) == ranked(found, w)
}

proof fn lemma_text_order(a: Seq<char>, b: Seq<char>, c: Seq<char>)
    ensures
        !text_before(a, a),
        text_before(a, b) && text_before(b, c) ==> text_before(a, c),
        text_before(a, b) || text_before(b, a) || a == b,
    decreases a.len(),
{
    if a.len() > 0 {
        if b.len() > 0 && c.len() > 0 {
            lemma_text_order(a.drop_first(), b.drop_first(), c.drop_first());
        } else if b.len() > 0 {
            lemma_text_order(a.drop_first(), b.drop_first(), c);
        } else {
            lemma_text_order(a.drop_first(), b, c);
        }
        if b.len() > 0 && a[0] == b[0] && a.drop_first() == b.drop_first() {
            assert(a =~= seq![a[0]] + a.drop_first());
            assert(b =~= seq![b[0]] + b.drop_first());
        }
    } else if b.len() == 0 {
        assert(a =~= b);
    }
}

proof fn lemma_world_order(a: WorldView, b: WorldView, c: WorldView)
    ensures
        world_before(a, b) && world_before(b, c) ==> world_before(a, c),
        world_before(a, b) ==> !world_before(b, a),
        same_rank(a, b) <==> !world_before(a, b) && !world_before(b, a),
{
    lemma_text_order(a.name, b.name, c.name);
    lemma_text_order(a.name, b.name, a.name);
}

fn text_before_of(a: &str, b: &str) -> (r: bool)
    ensures
        r == text_before(a@, b@),
{
    let v: Vec<char> = chars_of(a);
    let w: Vec<char> = chars_of(b);
    let mut i: usize = 0;
    assert(v@.skip(0) =~= v@ && w@.skip(0) =~= w@);
    while i < v.len() && i < w.len() && v[i] == w[i]
        invariant
            i <= v@.len(),
            i <= w@.len(),
            text_before(a@, b@) == text_before(v@.skip(i as int), w@.skip(i as int)),
        decreases v@.len() - i,
    {
        assert(v@.skip(i as int).drop_first() =~= v@.skip(i + 1));
        assert(w@.skip(i as int).drop_first() =~= w@.skip(i + 1));
        i += 1;
    }
    if i == w.len() {
        false
    } else if i == v.len() {
        true
    } else {
        v[i] < w[i]
    }
}

fn world_before_of(a: &WorldEntry, b: &WorldEntry) -> (r: bool)
    ensures
        r == world_before(a@, b@),
{
    if a.is_current != b.is_current {
        a.is_current
    } else {
        text_before_of(a.name.as_str(), b.name.as_str())
    }
}

/// Putting a world before the first that should follow it keeps a list an
/// ordering.
proof fn lemma_insert_keeps_ordering(
    list: Seq<WorldView>,
    found: Seq<WorldView>,
    w: WorldView,
    n: int,
)
    requires
        is_ordering(list, found),
        0 <= n <= list.len(),
        forall|i: int| 0 <= i < n ==> !world_before(w, #[trigger] list[i]),
        n < list.len() ==> world_before(w, list[n]),
    ensures
        is_ordering(list.insert(n, w), found.push(w)),
{
    let after = list.insert(n, w);
    assert forall|j: int| n <= j < list.len() implies world_before(w, #[trigger] list[j]) by {
        if j > n {
            lemma_world_order(list[j], list[n], w);
            lemma_world_order(w, list[n], list[j]);
            assert(!world_before(list[j], list[n]));
            if same_rank(list[j], list[n]) {
            } else {
                assert(world_before(list[n], list[j]));
            }
        }
    }
    assert forall|i: int, j: int| 0 <= i < j < after.len() implies !world_before(
        #[trigger] after[j],
        #[trigger] after[i],
    ) by {
        if j < n {
            assert(after[i] == list[i] && after[j] == list[j]);
        } else if j == n {
            assert(after[i] == list[i]);
        } else if i == n {
            assert(after[j] == list[j - 1]);
            lemma_world_order(w, list[j - 1], w);
        } else if i < n {
            assert(after[i] == list[i] && after[j] == list[j - 1]);
        } else {
            assert(after[i] == list[i - 1] && after[j] == list[j - 1]);
        }
    }
    assert forall|x: WorldView| #[trigger] ranked(after, x) == ranked(found.push(w), x) by {
        let pred = |y: WorldView| same_rank(y, x);
        let front = list.take(n);
        let back = list.skip(n);
        assert(after =~= front.push(w) + back);
        assert(list =~= front + back);
        Seq::filter_distributes_over_add(front.push(w), back, pred);
        Seq::filter_distributes_over_add(front, back, pred);
        front.lemma_filter_push(w, pred);
        found.lemma_filter_push(w, pred);
        assert(ranked(list, x) == ranked(found, x));
        if same_rank(w, x) {
            assert forall|i: int| 0 <= i < back.len() implies !pred(#[trigger] back[i]) by {
                assert(back[i] == list[n + i]);
                lemma_world_order(w, list[n + i], w);
            }
            lemma_nothing_passes(back, pred);
            assert(after.filter(pred) =~= found.push(w).filter(pred));
        } else {
            assert(after.filter(pred) =~= found.push(w).filter(pred));
        }
    }
}

proof fn lemma_nothing_passes(s: Seq<WorldView>, pred: spec_fn(WorldView) -> bool)
    requires
        forall|i: int| 0 <= i < s.len() ==> !pred(#[trigger] s[i]),
    ensures
        s.filter(pred) == Seq::<WorldView>::empty(),
    decreases s.len(),
{
    reveal(Seq::filter);
    if s.len() > 0 {
        assert(!pred(s[s.len() - 1]));
        lemma_nothing_passes(s.drop_last(), pred);
    }
}

/// Puts a world into an ordered list.
fn insert_world(list: &mut Vec<WorldEntry>, w: WorldEntry, Ghost(found): Ghost<Seq<WorldView>>)
    requires
        is_ordering(world_views(old(list)@), found),
    ensures
        is_ordering(world_views(final(list)@), found.push(w@)),
{
    let mut n: usize = 0;
    while n < list.len() && !world_before_of(&w, &list[n])
        invariant
            n <= list@.len(),
            forall|i: int| 0 <= i < n ==> !world_before(w@, #[trigger] world_views(list@)[i]),
        decreases list@.len() - n,
    {
        n += 1;
    }
    let ghost before = world_views(list@);
    let ghost shown = w@;
    proof {
        lemma_insert_keeps_ordering(before, found, shown, n as int);
    }
    list.insert(n, w);
    assert(world_views(list@) =~= before.insert(n as int, shown));
}

/// The worlds among what was found in the server's directory, where the server
/// is set to `current_level`: the current one first, then by name.
pub fn scan_worlds(found: &[FoundDir], current_level: &str) -> (r: Vec<WorldEntry>)
    ensures
        is_ordering(world_views(r@), worlds_in(found@, current_level@)),
{
    let mut out: Vec<WorldEntry> = Vec::new();
    let mut i: usize = 0;
    assert(world_views(out@) =~= worlds_in(found@.take(0), current_level@));
    while i < found.len()
        invariant
            i <= found@.len(),
            is_ordering(world_views(out@), worlds_in(found@.take(i as int), current_level@)),
        decreases found@.len() - i,
    {
        let ghost next = found@.take(i + 1);
        assert(next.drop_last() =~= found@.take(i as int));
        assert(next.last() == found@[i as int]);
        let f: &FoundDir = &found[i];
        if f.is_dir && f.has_level {
            let name: String = match &f.name {
                Some(name) => name.clone(),
                None => "?".to_owned(),
            };
            let is_current: bool = same(name.as_str(), current_level);
            let w: WorldEntry = WorldEntry {
                name,
                path: f.path.clone(),
                size_bytes: f.size_bytes,
                last_modified: f.last_modified,
                is_current,
            };
            assert(w@ == world_in(*f, current_level@));
            insert_world(
                &mut out,
                w,
                Ghost(worlds_in(found@.take(i as int), current_level@)),
            );
        }
        i += 1;
    }
    assert(found@.take(i as int) =~= found@);
    out
}

// ---------- Laws ----------

proof fn lemma_ranked_last(s: Seq<WorldView>, w: WorldView)
    requires
        s.len() > 0,
    ensures
        ranked(s, w) == if same_rank(s.last(), w) {
            ranked(s.drop_last(), w).push(s.last())
        } else {
            ranked(s.drop_last(), w)
        },
{
    reveal(Seq::filter);
}

proof fn lemma_ranked_has(s: Seq<WorldView>, w: WorldView)
    ensures
        forall|i: int|
            0 <= i < ranked(s, w).len() ==> same_rank(#[trigger] ranked(s, w)[i], w) && s.contains(
                ranked(s, w)[i],
            ),
    decreases s.len(),
{
    reveal(Seq::filter);
    if s.len() > 0 {
        lemma_ranked_has(s.drop_last(), w);
        lemma_ranked_last(s, w);
        assert forall|i: int| 0 <= i < ranked(s, w).len() implies same_rank(
            #[trigger] ranked(s, w)[i],
            w,
        ) && s.contains(ranked(s, w)[i]) by {
            let front = ranked(s.drop_last(), w);
            if i < front.len() {
                assert(ranked(s, w)[i] == front[i]);
                assert(s.drop_last().contains(front[i]));
                let k = s.drop_last().index_of(front[i]);
                assert(s[k] == front[i]);
            } else {
                assert(ranked(s, w)[i] == s[s.len() - 1]);
            }
        }
    }
}

/// Of two lists with the same worlds in order, the last world of one does not
/// come before the last of the other.
proof fn lemma_last_is_last(a: Seq<WorldView>, b: Seq<WorldView>)
    requires
        a.len() > 0,
        in_order(b),
        forall|w: WorldView| #[trigger] ranked(a, w) == ranked(b, w),
    ensures
        b.len() > 0,
        !world_before(b.last(), a.last()),
{
    let w = a.last();
    lemma_ranked_last(a, w);
    lemma_ranked_has(b, w);
    assert(ranked(a, w) == ranked(b, w));
    let x = ranked(b, w)[ranked(b, w).len() - 1];
    assert(b.contains(x));
    let k = b.index_of(x);
    if k < b.len() - 1 {
        assert(!world_before(b[b.len() - 1], b[k]));
    } else {
        lemma_world_order(x, w, x);
    }
}

proof fn lemma_same_ranks_same_list(a: Seq<WorldView>, b: Seq<WorldView>)
    requires
        in_order(a),
        in_order(b),
        forall|w: WorldView| #[trigger] ranked(a, w) == ranked(b, w),
    ensures
        a == b,
    decreases a.len(),
{
    if a.len() == 0 {
        if b.len() > 0 {
            lemma_last_is_last(b, a);
        }
        assert(a =~= b);
    } else {
        lemma_last_is_last(a, b);
        lemma_last_is_last(b, a);
        let last = a.last();
        lemma_world_order(last, b.last(), last);
        assert(same_rank(last, b.last()));
        lemma_ranked_last(a, last);
        lemma_ranked_last(b, last);
        assert(ranked(a, last) == ranked(b, last));
        assert(ranked(a, last).last() == last);
        assert(b.last() == last);
        assert forall|w: WorldView| #[trigger]
            ranked(a.drop_last(), w) == ranked(b.drop_last(), w) by {
            lemma_ranked_last(a, w);
            lemma_ranked_last(b, w);
            assert(ranked(a, w) == ranked(b, w));
            if same_rank(last, w) {
                assert(ranked(a.drop_last(), w) =~= ranked(a, w).drop_last());
                assert(ranked(b.drop_last(), w) =~= ranked(b, w).drop_last());
            }
        }
        lemma_same_ranks_same_list(a.drop_last(), b.drop_last());
        assert(a =~= a.drop_last().push(last));
        assert(b =~= b.drop_last().push(last));
    }
}

/// The list is settled by what was found: there is one ordering of it only.
pub proof fn law_one_ordering_only(a: Seq<WorldView>, b: Seq<WorldView>, found: Seq<WorldView>)
    requires
        is_ordering(a, found),
        is_ordering(b, found),
    ensures
        a == b,
{
    assert forall|w: WorldView| #[trigger] ranked(a, w) == ranked(b, w) by {
        assert(ranked(a, w) == ranked(found, w));
        assert(ranked(b, w) == ranked(found, w));
    }
    lemma_same_ranks_same_list(a, b);
}

proof fn lemma_ranked_count(s: Seq<WorldView>, w: WorldView)
    ensures
        s.to_multiset().count(w) == ranked(s, w).to_multiset().count(w),
    decreases s.len(),
{
    broadcast use vstd::seq_lib::group_to_multiset_ensures;

    reveal(Seq::filter);
    if s.len() > 0 {
        lemma_ranked_count(s.drop_last(), w);
        lemma_ranked_last(s, w);
        assert(s =~= s.drop_last().push(s.last()));
    }
}

/// The list shows every world that was found, as often as it was found, and
/// nothing else.
pub proof fn law_list_has_what_was_found(list: Seq<WorldView>, found: Seq<WorldView>)
    requires
        is_ordering(list, found),
    ensures
        list.to_multiset() == found.to_multiset(),
        list.len() == found.len(),
        forall|w: WorldView| list.contains(w) <==> found.contains(w),
{
    broadcast use vstd::seq_lib::group_to_multiset_ensures;

    assert forall|w: WorldView|
        list.to_multiset().count(w) == found.to_multiset().count(w) by {
        assert(ranked(list, w) == ranked(found, w));
        lemma_ranked_count(list, w);
        lemma_ranked_count(found, w);
    }
    assert(list.to_multiset() =~= found.to_multiset());
    assert(list.len() == list.to_multiset().len());
    assert(found.len() == found.to_multiset().len());
    assert forall|w: WorldView| list.contains(w) <==> found.contains(w) by {
        assert(list.contains(w) <==> list.to_multiset().count(w) > 0);
        assert(found.contains(w) <==> found.to_multiset().count(w) > 0);
    }
}

proof fn lemma_worlds_in_are_marked(found: Seq<FoundDir>, current: Seq<char>)
    ensures
        forall|i: int|
            0 <= i < worlds_in(found, current).len() ==> (#[trigger] worlds_in(
                found,
                current,
            )[i]).is_current == (worlds_in(found, current)[i].name == current),
    decreases found.len(),
{
    if found.len() > 0 {
        lemma_worlds_in_are_marked(found.drop_last(), current);
    }
}

/// The world that the server is set to is marked, no other is, and it comes
/// before the others.
pub proof fn law_current_world_comes_first(
    list: Seq<WorldView>,
    found: Seq<FoundDir>,
    current: Seq<char>,
)
    requires
        is_ordering(list, worlds_in(found, current)),
    ensures
        forall|i: int|
            0 <= i < list.len() ==> (#[trigger] list[i]).is_current == (list[i].name == current),
        forall|i: int, j: int|
            0 <= i < j < list.len() && (#[trigger] list[j]).is_current ==> (
            #[trigger] list[i]).is_current,
{
    law_list_has_what_was_found(list, worlds_in(found, current));
    lemma_worlds_in_are_marked(found, current);
    assert forall|i: int| 0 <= i < list.len() implies (#[trigger] list[i]).is_current == (
    list[i].name == current) by {
        assert(list.contains(list[i]));
        assert(worlds_in(found, current).contains(list[i]));
        let k = worlds_in(found, current).index_of(list[i]);
        assert(worlds_in(found, current)[k] == list[i]);
    }
}

proof fn lemma_worlds_in_has(found: Seq<FoundDir>, current: Seq<char>, i: int)
    requires
        0 <= i < found.len(),
        is_world(found[i]),
    ensures
        worlds_in(found, current).contains(world_in(found[i], current)),
    decreases found.len(),
{
    let before = worlds_in(found.drop_last(), current);
    let all = worlds_in(found, current);
    if i == found.len() - 1 {
        assert(all[before.len() as int] == world_in(found[i], current));
    } else {
        lemma_worlds_in_has(found.drop_last(), current, i);
        let k = before.index_of(world_in(found[i], current));
        assert(all[k] == before[k]);
    }
}

/// Where the world that the server is set to was found, the list begins with
/// it.
pub proof fn law_list_begins_with_the_current_world(
    list: Seq<WorldView>,
    found: Seq<FoundDir>,
    current: Seq<char>,
    i: int,
)
    requires
        is_ordering(list, worlds_in(found, current)),
        0 <= i < found.len(),
        is_world(found[i]),
        shown_name(found[i]) == current,
    ensures
        list.len() > 0,
        list[0].is_current,
        list[0].name == current,
{
    lemma_worlds_in_has(found, current, i);
    law_list_has_what_was_found(list, worlds_in(found, current));
    law_current_world_comes_first(list, found, current);
    let w = world_in(found[i], current);
    assert(list.contains(w));
    let j = list.index_of(w);
    assert(list[j].is_current);
    if j > 0 {
        assert(list[0].is_current);
    }
}

} // verus!
