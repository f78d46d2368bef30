use vstd::prelude::*;

use crate::parser::{TodoItem, TodoParser};
use crate::path_order::{compare_paths, lemma_parts_cmp_antisym, lemma_parts_cmp_trans, path_cmp};
use crate::scan_model::{
    FilesModel, CountsModel, unique_keys, has_key, flat_items, count_total, bump, tally, put, keep, filter_files, all_pairs, entries_of, sorted_by_path, lemma_count_le_total, lemma_count_total_update, lemma_count_total_push, lemma_flat_update, lemma_flat_take, lemma_keep_len, lemma_filter_files_bound, lemma_filter_files_keys, lemma_tally_append,
};
use crate::text::{eq_ignore_ascii_case, eq_ignore_case, lines_of};

verus! {

/// The result of scanning a directory for tags.
pub struct ScanResult {
    /// Each file with at least one item, and its items in line order.
    pub files: Vec<(String, Vec<TodoItem>)>,
    /// Number of items found.
    pub total_count: usize,
    /// Number of files scanned, whether they held items or not.
    pub files_scanned: usize,
    /// Number of files with items.
    pub files_with_todos: usize,
    /// Number of items of each tag.
    pub tag_counts: Vec<(String, usize)>,
    /// Root directory that was scanned.
    pub root: String,
}

impl ScanResult {
    /// The files as plain values.
    pub open spec fn files_model(&self) -> FilesModel {
        self.files@.map_values(|e: (String, Vec<TodoItem>)| (e.0@, e.1@))
    }

    /// The tag counts as plain values.
    pub open spec fn counts_model(&self) -> CountsModel {
        self.tag_counts@.map_values(|e: (String, usize)| (e.0@, e.1 as nat))
    }

    /// What every sequence of `add_file` calls keeps: keys unique, no file
    /// without items, the counts adding up to the total, and the number of
    /// files bounded by the two file counters.
    pub open spec fn wf(&self) -> bool {
        &&& unique_keys(self.files_model())
        &&& unique_keys(self.counts_model())
        &&& forall|i: int|
            0 <= i < self.files@.len() ==> (#[trigger] self.files@[i]).1@.len() > 0
        &&& count_total(self.counts_model()) == self.total_count
        &&& flat_items(self.files_model()).len() <= self.total_count
        &&& self.files@.len() <= self.files_with_todos
        &&& self.files_with_todos <= self.files_scanned
    }

    /// The four invariants of a scan result: the total is the number of
    /// stored items, the files with items are the stored files, the tag
    /// counts add up to the total, and no more files hold items than were
    /// scanned.
    pub open spec fn consistent(&self) -> bool {
        &&& self.wf()
        &&& self.total_count == flat_items(self.files_model()).len()
        &&& self.files_with_todos == self.files@.len()
        &&& count_total(self.counts_model()) == self.total_count
        &&& self.files_scanned >= self.files_with_todos
    }

    /// Whether `out` is `src` restricted to the items tagged `t`: the match
    /// data recomputed, the scanned count and the root kept.
    pub open spec fn filtered_from(out: ScanResult, src: ScanResult, t: Seq<char>) -> bool {
        let f = filter_files(src.files_model(), t);
        &&& out.files_model() == f
        &&& out.counts_model() == tally(Seq::empty(), flat_items(f))
        &&& out.total_count == flat_items(f).len()
        &&& out.files_with_todos == f.len()
        &&& out.files_scanned == src.files_scanned
        &&& out.root == src.root
    }

    /// Whether `after` is `before` with one more scanned file `path` holding
    /// `items`: the scanned count goes up by one, and where `items` is not
    /// empty the file is stored and its items counted.
    pub open spec fn file_added(
        before: ScanResult,
        after: ScanResult,
        path: Seq<char>,
        items: Seq<TodoItem>,
    ) -> bool {
        &&& after.files_scanned == before.files_scanned + 1
        &&& after.root == before.root
        &&& items.len() == 0 ==> {
            &&& after.files == before.files
            &&& after.tag_counts == before.tag_counts
            &&& after.total_count == before.total_count
            &&& after.files_with_todos == before.files_with_todos
        }
        &&& items.len() > 0 ==> {
            &&& after.files_model() == put(before.files_model(), path, items)
            &&& after.counts_model() == tally(before.counts_model(), items)
            &&& after.total_count == before.total_count + items.len()
            &&& after.files_with_todos == before.files_with_todos + 1
        }
    }

    /// An empty result for `root`.
    pub fn new(root: String) -> (r: ScanResult)
        ensures
            r.files@.len() == 0,
            r.tag_counts@.len() == 0,
            r.total_count == 0,
            r.files_scanned == 0,
            r.files_with_todos == 0,
            r.root == root,
            r.consistent(),
    {
        let r = ScanResult {
            files: Vec::new(),
            total_count: 0,
            files_scanned: 0,
            files_with_todos: 0,
            tag_counts: Vec::new(),
            root,
        };
        proof {
            assert(r.files_model() =~= Seq::empty());
            assert(r.counts_model() =~= Seq::empty());
        }
        r
    }

    /// Counts one more occurrence of `tag`.
    fn bump_tag(&mut self, tag: &String)
        requires
            unique_keys(old(self).counts_model()),
            count_total(old(self).counts_model()) < usize::MAX,
        ensures
            final(self).counts_model() == bump(old(self).counts_model(), tag@),
            unique_keys(final(self).counts_model()),
            count_total(final(self).counts_model()) == count_total(old(self).counts_model()) + 1,
            final(self).files == old(self).files,
            final(self).total_count == old(self).total_count,
            final(self).files_scanned == old(self).files_scanned,
            final(self).files_with_todos == old(self).files_with_todos,
            final(self).root == old(self).root,
    {
        let ghost c = self.counts_model();
        let mut i: usize = 0;
        while i < self.tag_counts.len()
            invariant
                0 <= i <= self.tag_counts@.len(),
                c == self.counts_model(),
                *self == *old(self),
                unique_keys(c),
                count_total(c) < usize::MAX,
                forall|j: int| 0 <= j < i ==> (#[trigger] c[j]).0 != tag@,
            decreases self.tag_counts@.len() - i,
        {
            if self.tag_counts[i].0 == *tag {
                let n = self.tag_counts[i].1;
                proof {
                    lemma_count_le_total(c, i as int);
                    assert(c[i as int].1 == n);

                    assert(c[i as int].0 == tag@);
                    let k = choose|k: int| 0 <= k < c.len() && c[k].0 == tag@;
                    assert(k == i);
                }
                let key = self.tag_counts[i].0.clone();
                self.tag_counts.set(i, (key, n + 1));
                proof {
                    assert(self.counts_model() =~= c.update(i as int, (tag@, c[i as int].1 + 1)));
                    lemma_count_total_update(c, i as int, tag@, c[i as int].1 + 1);
                }
                return ;
            }
            i = i + 1;
        }
        self.tag_counts.push((tag.clone(), 1));
        proof {
            assert(!has_key(c, tag@));
            assert(self.counts_model() =~= c.push((tag@, 1)));
            lemma_count_total_push(c, tag@, 1);
        }
    }

    /// Sets the items of `path`, replacing those it had.
    fn put_file(&mut self, path: String, items: Vec<TodoItem>)
        requires
            unique_keys(old(self).files_model()),
        ensures
            final(self).files_model() == put(old(self).files_model(), path@, items@),
            unique_keys(final(self).files_model()),
            has_key(old(self).files_model(), path@) ==> final(self).files@.len()
                == old(self).files@.len(),
            !has_key(old(self).files_model(), path@) ==> final(self).files@.len()
                == old(self).files@.len() + 1,
            forall|j: int|
                0 <= j < final(self).files@.len() ==> (#[trigger] final(self).files@[j]).1@
                    == items@ || exists|k: int|
                    0 <= k < old(self).files@.len() && final(self).files@[j] == old(
                        self,
                    ).files@[k],
            flat_items(final(self).files_model()).len() <= flat_items(
                old(self).files_model(),
            ).len() + items@.len(),
            final(self).tag_counts == old(self).tag_counts,
            final(self).total_count == old(self).total_count,
            final(self).files_scanned == old(self).files_scanned,
            final(self).files_with_todos == old(self).files_with_todos,
            final(self).root == old(self).root,
    {
        let ghost f = self.files_model();
        let ghost old_files = self.files@;
        let mut i: usize = 0;
        while i < self.files.len()
            invariant
                0 <= i <= self.files@.len(),
                f == self.files_model(),
                old_files == self.files@,
                *self == *old(self),
                unique_keys(f),
                forall|j: int| 0 <= j < i ==> (#[trigger] f[j]).0 != path@,
            decreases self.files@.len() - i,
        {
            if self.files[i].0 == path {
                proof {
                    assert(f[i as int].0 == path@);
                    let k = choose|k: int| 0 <= k < f.len() && f[k].0 == path@;
                    assert(k == i);
                    lemma_flat_update(f, i as int, (path@, items@));
                }
                let ghost e = (path@, items@);
                self.files.set(i, (path, items));
                proof {
                    assert(self.files_model() =~= f.update(i as int, e));
                    assert forall|j: int|
                        0 <= j < self.files@.len() implies (#[trigger] self.files@[j]).1@
                            == e.1 || exists|k: int|
                            0 <= k < old_files.len() && self.files@[j] == old_files[k] by {
                        if j != i {
                            assert(self.files@[j] == old_files[j]);
                        }
                    }
                }
                return ;
            }
            i = i + 1;
        }
        let ghost e = (path@, items@);
        self.files.push((path, items));
        proof {
            assert(!has_key(f, path@));
            assert(self.files_model() =~= f.push(e));
            assert(f.push(e).drop_last() =~= f);
            assert forall|j: int|
                0 <= j < self.files@.len() implies (#[trigger] self.files@[j]).1@ == e.1 || exists|
                    k: int,
                |
                    0 <= k < old_files.len() && self.files@[j] == old_files[k] by {
                if j < old_files.len() {
                    assert(self.files@[j] == old_files[j]);
                }
            }
        }
    }

    /// Records one scanned file and its items. A file without items is
    /// counted as scanned and changes nothing else.
    pub fn add_file(&mut self, path: String, items: Vec<TodoItem>)
        requires
            old(self).wf(),
            old(self).files_scanned < usize::MAX,
            old(self).total_count + items@.len() <= usize::MAX,
        ensures
            final(self).wf(),
            ScanResult::file_added(*old(self), *final(self), path@, items@),
    {
        self.files_scanned = self.files_scanned + 1;
        if items.len() == 0 {
            return ;
        }
        let ghost c0 = self.counts_model();
        let ghost t0 = self.total_count;
        self.files_with_todos = self.files_with_todos + 1;
        let mut k: usize = 0;
        while k < items.len()
            invariant
                0 <= k <= items@.len(),
                self.counts_model() == tally(c0, items@.take(k as int)),
                unique_keys(self.counts_model()),
                count_total(self.counts_model()) == t0 + k,
                t0 + items@.len() <= usize::MAX,
                self.total_count == t0,
                unique_keys(self.files_model()),
                forall|i: int|
                    0 <= i < self.files@.len() ==> (#[trigger] self.files@[i]).1@.len() > 0,
                flat_items(self.files_model()).len() <= t0,
                self.files@.len() < self.files_with_todos,
                self.files_with_todos <= self.files_scanned,
                self.root == old(self).root,
                self.files == old(self).files,
                self.files_with_todos == old(self).files_with_todos + 1,
                self.files_scanned == old(self).files_scanned + 1,
            decreases items@.len() - k,
        {
            proof {
                let s = items@.take(k + 1);
                assert(s.drop_last() =~= items@.take(k as int));
            }
            self.bump_tag(&items[k].tag);
            k = k + 1;
        }
        proof {
            assert(items@.take(items@.len() as int) =~= items@);
        }
        self.total_count = self.total_count + items.len();
        self.put_file(path, items);
        proof {
            assert forall|i: int|
                0 <= i < self.files@.len() implies (#[trigger] self.files@[i]).1@.len() > 0 by {
                if self.files@[i].1@ != items@ {
                    let k = choose|k: int|
                        0 <= k < old(self).files@.len() && self.files@[i] == old(self).files@[k];
                    assert(old(self).files@[k].1@.len() > 0);
                }
            }
        }
    }

    /// Records a file whose content was read as `content`, or that could not
    /// be read as text (`None`): such a file is counted as scanned and adds
    /// no items. Returns false, changing nothing, where the file's items would
    /// take the total count past `usize::MAX`.
    pub fn record_file(&mut self, parser: &TodoParser, path: String, content: Option<&str>) -> (r:
        bool)
        requires
            old(self).wf(),
            parser.wf(),
            old(self).files_scanned < usize::MAX,
        ensures
            final(self).wf(),
            final(self).root == old(self).root,
            content is None ==> r && ScanResult::file_added(
                *old(self),
                *final(self),
                path@,
                Seq::empty(),
            ),
            content matches Some(text) ==> exists|found: Seq<Option<TodoItem>>|
                #![trigger crate::parser::somes(found)]
                {
                    &&& found.len() == lines_of(text@).len()
                    &&& forall|i: int|
                        0 <= i < found.len() ==> parser.spec_parse_line(
                            #[trigger] lines_of(text@)[i],
                            (i + 1) as usize,
                            found[i],
                        )
                    &&& r == (old(self).total_count + crate::parser::somes(found).len()
                        <= usize::MAX)
                    &&& !r ==> *final(self) == *old(self)
                    &&& r ==> ScanResult::file_added(
                        *old(self),
                        *final(self),
                        path@,
                        crate::parser::somes(found),
                    )
                },
    {
        match content {
            None => {
                self.files_scanned = self.files_scanned + 1;
                proof {
                    let e: Seq<TodoItem> = Seq::empty();
                    assert(e.len() == 0);
                }
                true
            },
            Some(text) => {
                let items = parser.parse_content(text);
                if items.len() > usize::MAX - self.total_count {
                    return false;
                }
                self.add_file(path, items);
                true
            },
        }
    }

    /// Every item paired with the path of its file, file after file.
    pub fn all_items(&self) -> (r: Vec<(String, TodoItem)>)
        ensures
            r@ == all_pairs(self.files@),
    {
        let mut out: Vec<(String, TodoItem)> = Vec::new();
        let mut i: usize = 0;
        while i < self.files.len()
            invariant
                0 <= i <= self.files@.len(),
                out@ == all_pairs(self.files@.take(i as int)),
            decreases self.files@.len() - i,
        {
            let path = &self.files[i].0;
            let items = &self.files[i].1;
            let ghost before = out@;
            let mut j: usize = 0;
            while j < items.len()
                invariant
                    0 <= j <= items@.len(),
                    path == self.files@[i as int].0,
                    items == self.files@[i as int].1,
                    out@ == before + items@.take(j as int).map_values(
                        |it: TodoItem| (*path, it),
                    ),
                decreases items@.len() - j,
            {
                out.push((path.clone(), items[j].duplicate()));
                proof {
                    assert(items@.take(j + 1).map_values(|it: TodoItem| (*path, it))
                        =~= items@.take(j as int).map_values(|it: TodoItem| (*path, it)).push(
                        (*path, items@[j as int]),
                    ));
                }
                j = j + 1;
            }
            proof {
                assert(items@.take(items@.len() as int) =~= items@);
                let s = self.files@.take(i + 1);
                assert(s.drop_last() =~= self.files@.take(i as int));
            }
            i = i + 1;
        }
        proof {
            assert(self.files@.take(self.files@.len() as int) =~= self.files@);
        }
        out
    }

    /// The stored files ordered by path, component by component.
    pub fn sorted_files(&self) -> (r: Vec<(&String, &Vec<TodoItem>)>)
        ensures
            r@.len() == self.files@.len(),
            entries_of(r@).to_multiset() == self.files@.to_multiset(),
            sorted_by_path(r@),
    {
        let mut out: Vec<(&String, &Vec<TodoItem>)> = Vec::new();
        let mut i: usize = 0;
        proof {
            assert(entries_of(out@) =~= self.files@.take(0));
        }
        while i < self.files.len()
            invariant
                0 <= i <= self.files@.len(),
                out@.len() == i,
                entries_of(out@).to_multiset() == self.files@.take(i as int).to_multiset(),
                sorted_by_path(out@),
            decreases self.files@.len() - i,
        {
            let e = &self.files[i];
            let mut j: usize = 0;
            let mut stop = false;
            while !stop && j < out.len()
                invariant
                    0 <= j <= out@.len(),
                    forall|k: int| 0 <= k < j ==> path_cmp(e.0@, (#[trigger] out@[k]).0@) >= 0,
                    stop ==> j < out@.len() && path_cmp(e.0@, out@[j as int].0@) < 0,
                decreases out@.len() - j + (if stop {
                    0int
                } else {
                    1int
                }),
            {
                if compare_paths(e.0.as_str(), out[j].0.as_str()) < 0 {
                    stop = true;
                } else {
                    j = j + 1;
                }
            }
            let ghost before = out@;
            let x = (&e.0, &e.1);
            out.insert(j, x);
            proof {
                before.insert_ensures(j as int, x);
                assert forall|a: int, b: int| 0 <= a < b < out@.len() implies path_cmp(
                    out@[a].0@,
                    out@[b].0@,
                ) <= 0 by {
                    let kx = crate::path_order::path_key(x.0@);
                    if a < j && b < j {
                        assert(out@[a] == before[a] && out@[b] == before[b]);
                    } else if a < j && b == j {
                        lemma_parts_cmp_antisym(kx, crate::path_order::path_key(before[a].0@));
                    } else if a < j {
                        assert(out@[a] == before[a] && out@[b] == before[b - 1]);
                    } else if a == j {
                        assert(out@[b] == before[b - 1]);
                        let kj = crate::path_order::path_key(before[j as int].0@);
                        lemma_parts_cmp_antisym(kj, kj);
                        if j < b - 1 {
                            assert(path_cmp(before[j as int].0@, before[b - 1].0@) <= 0);
                        }
                        lemma_parts_cmp_trans(
                            kx,
                            kj,
                            crate::path_order::path_key(before[b - 1].0@),
                        );
                    } else {
                        assert(out@[a] == before[a - 1] && out@[b] == before[b - 1]);
                    }
                }
                assert(entries_of(out@) =~= entries_of(before).insert(j as int, (*x.0, *x.1)));
                vstd::seq_lib::to_multiset_insert(entries_of(before), j as int, (*x.0, *x.1));
                assert(self.files@.take(i + 1) =~= self.files@.take(i as int).push(self.files@[i as int]));
                vstd::seq_lib::to_multiset_build(self.files@.take(i as int), self.files@[i as int]);
            }
            i = i + 1;
        }
        proof {
            assert(self.files@.take(self.files@.len() as int) =~= self.files@);
        }
        out
    }

    /// The items of `items` whose tag equals `tag` ignoring ASCII case.
    fn keep_tagged(items: &Vec<TodoItem>, tag: &str) -> (r: Vec<TodoItem>)
        ensures
            r@ == keep(items@, tag@),
    {
        let mut out: Vec<TodoItem> = Vec::new();
        let mut j: usize = 0;
        while j < items.len()
            invariant
                0 <= j <= items@.len(),
                out@ == keep(items@.take(j as int), tag@),
            decreases items@.len() - j,
        {
            proof {
                assert(items@.take(j + 1).drop_last() =~= items@.take(j as int));
            }
            if eq_ignore_ascii_case(items[j].tag.as_str(), tag) {
                out.push(items[j].duplicate());
            }
            j = j + 1;
        }
        proof {
            assert(items@.take(items@.len() as int) =~= items@);
        }
        out
    }

    /// A new result holding only the items whose tag equals `tag` ignoring
    /// ASCII case, over the same root and with the same scanned count.
    pub fn filter_by_tag(&self, tag: &str) -> (r: ScanResult)
        requires
            self.wf(),
        ensures
            r.wf(),
            ScanResult::filtered_from(r, *self, tag@),
    {
        let ghost f = self.files_model();
        let mut result = ScanResult::new(self.root.clone());
        let mut i: usize = 0;
        while i < self.files.len()
            invariant
                self.wf(),
                f == self.files_model(),
                0 <= i <= self.files@.len(),
                result.wf(),
                result.root == self.root,
                result.files_scanned <= i,
                result.files_model() == filter_files(f.take(i as int), tag@),
                result.counts_model() == tally(
                    Seq::empty(),
                    flat_items(filter_files(f.take(i as int), tag@)),
                ),
                result.total_count == flat_items(filter_files(f.take(i as int), tag@)).len(),
                result.files_with_todos == filter_files(f.take(i as int), tag@).len(),
            decreases self.files@.len() - i,
        {
            let kept = ScanResult::keep_tagged(&self.files[i].1, tag);
            let ghost prev = filter_files(f.take(i as int), tag@);
            proof {
                let s = f.take(i + 1);
                assert(s.drop_last() =~= f.take(i as int));
                assert(s.last() == f[i as int]);
                lemma_keep_len(f[i as int].1, tag@);
                lemma_filter_files_bound(f.take(i as int), tag@);
                lemma_flat_take(f, i as int);
            }
            if kept.len() > 0 {
                proof {
                    lemma_filter_files_keys(f.take(i as int), tag@);
                    assert(!has_key(prev, f[i as int].0)) by {
                        if has_key(prev, f[i as int].0) {
                            let j = choose|j: int| 0 <= j < prev.len() && prev[j].0 == f[i as int].0;
                            let m = choose|m: int|
                                0 <= m < i && #[trigger] f.take(i as int)[m].0 == prev[j].0;
                            assert(f[m].0 == f[i as int].0);
                        }
                    }
                    assert(put(prev, f[i as int].0, kept@) == prev.push((f[i as int].0, kept@)));
                    lemma_tally_append(Seq::empty(), flat_items(prev), kept@);
                    assert(flat_items(prev.push((f[i as int].0, kept@))) =~= flat_items(prev)
                        + kept@) by {
                        assert(prev.push((f[i as int].0, kept@)).drop_last() =~= prev);
                    }
                }
                result.add_file(self.files[i].0.clone(), kept);
            }
            i = i + 1;
        }
        proof {
            assert(f.take(self.files@.len() as int) =~= f);
            lemma_filter_files_bound(f, tag@);
        }
        result.files_scanned = self.files_scanned;
        result
    }
}

/// Options of a directory walk.
#[derive(Debug, Clone)]
pub struct ScanOptions {
    /// Glob patterns of files to scan.
    pub include_patterns: Vec<String>,
    /// Glob patterns of files to leave out.
    pub exclude: Vec<String>,
    /// Deepest level to walk (0: no limit).
    pub max_depth: usize,
    /// Whether to follow symbolic links.
    pub follow_links: bool,
    /// Whether to scan hidden files.
    pub hidden: bool,
    /// Number of threads (0: chosen automatically).
    pub threads: usize,
    /// Whether to honour `.gitignore` files.
    pub respect_gitignore: bool,
}

impl Default for ScanOptions {
    fn default() -> (r: ScanOptions)
        ensures
            r.include_patterns@.len() == 0,
            r.exclude@.len() == 0,
            r.max_depth == 0,
            !r.follow_links,
            !r.hidden,
            r.threads == 0,
            r.respect_gitignore,
    {
        ScanOptions {
            include_patterns: Vec::new(),
            exclude: Vec::new(),
            max_depth: 0,
            follow_links: false,
            hidden: false,
            threads: 0,
            respect_gitignore: true,
        }
    }
}

/// Adding a file to a result that holds the four invariants keeps them,
/// unless the same path was already stored with items.
pub proof fn lemma_add_file_keeps_invariants(
    before: ScanResult,
    after: ScanResult,
    path: Seq<char>,
    items: Seq<TodoItem>,
)
    requires
        before.consistent(),
        after.wf(),
        ScanResult::file_added(before, after, path, items),
        items.len() == 0 || !has_key(before.files_model(), path),
    ensures
        after.consistent(),
{
    if items.len() > 0 {
        let f = before.files_model();
        assert(put(f, path, items) == f.push((path, items)));
        assert(f.push((path, items)).drop_last() =~= f);
        assert(after.files@.len() == after.files_model().len());
    } else {
        assert(after.files_model() == before.files_model());
    }
}

/// Filtering by a tag a result already filtered by that tag changes nothing.
pub proof fn lemma_filter_by_tag_idempotent(
    src: ScanResult,
    once: ScanResult,
    twice: ScanResult,
    tag: Seq<char>,
)
    requires
        ScanResult::filtered_from(once, src, tag),
        ScanResult::filtered_from(twice, once, tag),
    ensures
        twice.files_model() == once.files_model(),
        twice.counts_model() == once.counts_model(),
        twice.total_count == once.total_count,
        twice.files_with_todos == once.files_with_todos,
        twice.files_scanned == once.files_scanned,
        twice.root == once.root,
{
    lemma_filter_files_idempotent(src.files_model(), tag);
}

/// Keeping the items of a tag twice keeps the same items as once.
pub proof fn lemma_keep_idempotent(s: Seq<TodoItem>, t: Seq<char>)
    ensures
        keep(keep(s, t), t) == keep(s, t),
        forall|i: int| 0 <= i < keep(s, t).len() ==> eq_ignore_case(#[trigger] keep(s, t)[i].tag@, t),
    decreases s.len(),
{
    if s.len() > 0 {
        let rest = keep(s.drop_last(), t);
        lemma_keep_idempotent(s.drop_last(), t);
        if eq_ignore_case(s.last().tag@, t) {
            assert(rest.push(s.last()).drop_last() =~= rest);
            assert(rest.push(s.last()).last() == s.last());
        }
    }
}

/// Filtering files by a tag twice gives the same files as once.
pub proof fn lemma_filter_files_idempotent(f: FilesModel, t: Seq<char>)
    ensures
        filter_files(filter_files(f, t), t) == filter_files(f, t),
    decreases f.len(),
{
    if f.len() > 0 {
        let rest = filter_files(f.drop_last(), t);
        let kept = keep(f.last().1, t);
        lemma_filter_files_idempotent(f.drop_last(), t);
        lemma_keep_idempotent(f.last().1, t);
        if kept.len() > 0 {
            let g = rest.push((f.last().0, kept));
            assert(g.drop_last() =~= rest);
            assert(g.last() == (f.last().0, kept));
        }
    }
}

} // verus!
