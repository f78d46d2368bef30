use vstd::prelude::*;

use crate::parser::TodoItem;
use crate::path_order::path_cmp;
use crate::text::eq_ignore_case;

verus! {

/// Files and their items, as plain values.
pub type FilesModel = Seq<(Seq<char>, Seq<TodoItem>)>;

/// Tags and their counts, as plain values.
pub type CountsModel = Seq<(Seq<char>, nat)>;

/// Sum of a sequence of integers.
pub open spec fn sum(s: Seq<int>) -> int
    decreases s.len(),
{
    if s.len() == 0 {
        0
    } else {
        sum(s.drop_last()) + s.last()
    }
}

/// No key occurs twice.
pub open spec fn unique_keys<V>(s: Seq<(Seq<char>, V)>) -> bool {
    forall|i: int, j: int| 0 <= i < s.len() && 0 <= j < s.len() && i != j ==> s[i].0 != s[j].0
}

/// Whether `k` is a key of `s`.
pub open spec fn has_key<V>(s: Seq<(Seq<char>, V)>, k: Seq<char>) -> bool {
    exists|i: int| 0 <= i < s.len() && s[i].0 == k
}

/// All items of all files, file after file.
pub open spec fn flat_items(f: FilesModel) -> Seq<TodoItem>
    decreases f.len(),
{
    if f.len() == 0 {
        Seq::empty()
    } else {
        flat_items(f.drop_last()) + f.last().1
    }
}

/// Total of all counts.
pub open spec fn count_total(c: CountsModel) -> int {
    sum(c.map_values(|e: (Seq<char>, nat)| e.1 as int))
}

/// `c` with one more occurrence of tag `t`.
pub open spec fn bump(c: CountsModel, t: Seq<char>) -> CountsModel {
    if has_key(c, t) {
        let i = choose|i: int| 0 <= i < c.len() && c[i].0 == t;
        c.update(i, (t, c[i].1 + 1))
    } else {
        c.push((t, 1))
    }
}

/// `c` with the tags of `items` counted in.
pub open spec fn tally(c: CountsModel, items: Seq<TodoItem>) -> CountsModel
    decreases items.len(),
{
    if items.len() == 0 {
        c
    } else {
        bump(tally(c, items.drop_last()), items.last().tag@)
    }
}

/// `f` with the items of `path` set to `items`: replaced where the path is
/// there already, added at the end otherwise.
pub open spec fn put(f: FilesModel, path: Seq<char>, items: Seq<TodoItem>) -> FilesModel {
    if has_key(f, path) {
        let i = choose|i: int| 0 <= i < f.len() && f[i].0 == path;
        f.update(i, (path, items))
    } else {
        f.push((path, items))
    }
}

/// The items of `s` whose tag equals `t` ignoring ASCII case, in order.
pub open spec fn keep(s: Seq<TodoItem>, t: Seq<char>) -> Seq<TodoItem>
    decreases s.len(),
{
    if s.len() == 0 {
        Seq::empty()
    } else {
        let rest = keep(s.drop_last(), t);
        if eq_ignore_case(s.last().tag@, t) {
            rest.push(s.last())
        } else {
            rest
        }
    }
}

/// The files of `f` restricted to the items tagged `t`, dropping files left
/// without items.
pub open spec fn filter_files(f: FilesModel, t: Seq<char>) -> FilesModel
    decreases f.len(),
{
    if f.len() == 0 {
        Seq::empty()
    } else {
        let rest = filter_files(f.drop_last(), t);
        let kept = keep(f.last().1, t);
        if kept.len() > 0 {
            rest.push((f.last().0, kept))
        } else {
            rest
        }
    }
}

/// Every file and item as a pair of path and item, file after file.
pub open spec fn all_pairs(f: Seq<(String, Vec<TodoItem>)>) -> Seq<(String, TodoItem)>
    decreases f.len(),
{
    if f.len() == 0 {
        Seq::empty()
    } else {
        let e = f.last();
        all_pairs(f.drop_last()) + e.1@.map_values(|it: TodoItem| (e.0, it))
    }
}

/// The entries that a list of borrowed entries points to.
pub open spec fn entries_of(s: Seq<(&String, &Vec<TodoItem>)>) -> Seq<(String, Vec<TodoItem>)> {
    s.map_values(|e: (&String, &Vec<TodoItem>)| (*e.0, *e.1))
}

/// Entries ordered by path, component by component.
pub open spec fn sorted_by_path(s: Seq<(&String, &Vec<TodoItem>)>) -> bool {
    forall|i: int, j: int| 0 <= i < j < s.len() ==> path_cmp(s[i].0@, s[j].0@) <= 0
}

/// A count is at most the total of all counts.
pub proof fn lemma_count_le_total(c: CountsModel, i: int)
    requires
        0 <= i < c.len(),
    ensures
        c[i].1 <= count_total(c),
    decreases c.len(),
{
    lemma_count_total_nonneg(c.drop_last());
    assert(c.map_values(|e: (Seq<char>, nat)| e.1 as int).drop_last() =~= c.drop_last().map_values(
        |e: (Seq<char>, nat)| e.1 as int,
    ));
    if i < c.len() - 1 {
        lemma_count_le_total(c.drop_last(), i);
    }
}

/// A total of counts is not negative.
pub proof fn lemma_count_total_nonneg(c: CountsModel)
    ensures
        count_total(c) >= 0,
    decreases c.len(),
{
    if c.len() > 0 {
        assert(c.map_values(|e: (Seq<char>, nat)| e.1 as int).drop_last()
            =~= c.drop_last().map_values(|e: (Seq<char>, nat)| e.1 as int));
        lemma_count_total_nonneg(c.drop_last());
    }
}

/// Replacing one term of a sum.
pub proof fn lemma_sum_update(s: Seq<int>, i: int, v: int)
    requires
        0 <= i < s.len(),
    ensures
        sum(s.update(i, v)) == sum(s) - s[i] + v,
    decreases s.len(),
{
    let u = s.update(i, v);
    if i < s.len() - 1 {
        assert(u.drop_last() =~= s.drop_last().update(i, v));
        lemma_sum_update(s.drop_last(), i, v);
    } else {
        assert(u.drop_last() =~= s.drop_last());
    }
}

/// Changing one count changes the total by the same amount.
pub proof fn lemma_count_total_update(c: CountsModel, i: int, k: Seq<char>, v: nat)
    requires
        0 <= i < c.len(),
    ensures
        count_total(c.update(i, (k, v))) == count_total(c) - c[i].1 + v,
{
    let m = c.map_values(|e: (Seq<char>, nat)| e.1 as int);
    assert(c.update(i, (k, v)).map_values(|e: (Seq<char>, nat)| e.1 as int) =~= m.update(
        i,
        v as int,
    ));
    lemma_sum_update(m, i, v as int);
}

/// A new count adds to the total.
pub proof fn lemma_count_total_push(c: CountsModel, k: Seq<char>, v: nat)
    ensures
        count_total(c.push((k, v))) == count_total(c) + v,
{
    let m = c.map_values(|e: (Seq<char>, nat)| e.1 as int);
    let n = c.push((k, v)).map_values(|e: (Seq<char>, nat)| e.1 as int);
    assert(n.drop_last() =~= m);
}

/// The items of files `f` after replacing file `i`.
pub proof fn lemma_flat_update(f: FilesModel, i: int, e: (Seq<char>, Seq<TodoItem>))
    requires
        0 <= i < f.len(),
    ensures
        flat_items(f.update(i, e)).len() == flat_items(f).len() - f[i].1.len() + e.1.len(),
    decreases f.len(),
{
    let u = f.update(i, e);
    if i < f.len() - 1 {
        assert(u.drop_last() =~= f.drop_last().update(i, e));
        lemma_flat_update(f.drop_last(), i, e);
    } else {
        assert(u.drop_last() =~= f.drop_last());
    }
}

/// The items of a prefix of the files are no more than all of them.
pub proof fn lemma_flat_take(f: FilesModel, i: int)
    requires
        0 <= i <= f.len(),
    ensures
        flat_items(f.take(i)).len() + (if i < f.len() { f[i].1.len() as int } else { 0int })
            <= flat_items(f).len(),
    decreases f.len(),
{
    if i < f.len() {
        if i == f.len() - 1 {
            assert(f.take(i) =~= f.drop_last());
        } else {
            assert(f.drop_last().take(i) =~= f.take(i));
            lemma_flat_take(f.drop_last(), i);
        }
    } else {
        assert(f.take(i) =~= f);
    }
}

/// Keeping items never adds any.
pub proof fn lemma_keep_len(s: Seq<TodoItem>, t: Seq<char>)
    ensures
        keep(s, t).len() <= s.len(),
    decreases s.len(),
{
    if s.len() > 0 {
        lemma_keep_len(s.drop_last(), t);
    }
}

/// Filtering files keeps no more files and no more items than there were.
pub proof fn lemma_filter_files_bound(f: FilesModel, t: Seq<char>)
    ensures
        filter_files(f, t).len() <= f.len(),
        flat_items(filter_files(f, t)).len() <= flat_items(f).len(),
    decreases f.len(),
{
    if f.len() > 0 {
        lemma_filter_files_bound(f.drop_last(), t);
        lemma_keep_len(f.last().1, t);
        let rest = filter_files(f.drop_last(), t);
        let kept = keep(f.last().1, t);
        assert(rest.push((f.last().0, kept)).drop_last() =~= rest);
    }
}

/// Every key of the filtered files is a key of the files.
pub proof fn lemma_filter_files_keys(f: FilesModel, t: Seq<char>)
    ensures
        forall|j: int|
            0 <= j < filter_files(f, t).len() ==> exists|m: int|
                0 <= m < f.len() && #[trigger] f[m].0 == (#[trigger] filter_files(f, t)[j]).0,
    decreases f.len(),
{
    if f.len() > 0 {
        let g = f.drop_last();
        lemma_filter_files_keys(g, t);
        let rest = filter_files(g, t);
        let out = filter_files(f, t);
        assert forall|j: int| 0 <= j < out.len() implies exists|m: int|
            0 <= m < f.len() && #[trigger] f[m].0 == (#[trigger] out[j]).0 by {
            if j < rest.len() {
                assert(out[j] == rest[j]);
                let m = choose|m: int| 0 <= m < g.len() && #[trigger] g[m].0 == rest[j].0;
                assert(f[m] == g[m]);
            } else {
                assert(out[j].0 == f[f.len() - 1].0);
            }
        }
    }
}

/// Counting the tags of two runs of items one after the other.
pub proof fn lemma_tally_append(c: CountsModel, a: Seq<TodoItem>, b: Seq<TodoItem>)
    ensures
        tally(c, a + b) == tally(tally(c, a), b),
    decreases b.len(),
{
    if b.len() == 0 {
        assert(a + b =~= a);
    } else {
        assert((a + b).drop_last() =~= a + b.drop_last());
        lemma_tally_append(c, a, b.drop_last());
    }
}

} // verus!
