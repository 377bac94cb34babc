use vstd::prelude::*;
use crate::range::{CommentRange, RangeView};

verus! {

/// The ranges of `s` that cover `line` of `file`, in the order of `s`.
pub open spec fn containing(s: Seq<CommentRange>, file: Seq<char>, line: int) -> Seq<CommentRange> {
    s.filter(|r: CommentRange| r.covers(file, line))
}

/// The ranges of `s` that do not cover `line` of `file`, in the order of `s`.
pub open spec fn not_containing(s: Seq<CommentRange>, file: Seq<char>, line: int) -> Seq<CommentRange> {
    s.filter(|r: CommentRange| !r.covers(file, line))
}

/// The ranges of `s` that belong to `file`, in the order of `s`.
pub open spec fn in_file(s: Seq<CommentRange>, file: Seq<char>) -> Seq<CommentRange> {
    s.filter(|r: CommentRange| r.file@ == file)
}

/// The first range of `s` that covers `line` of `file`, if any.
pub open spec fn first_containing(s: Seq<CommentRange>, file: Seq<char>, line: int) -> Option<CommentRange> {
    let c = containing(s, file, line);
    if c.len() == 0 {
        None
    } else {
        Some(c[0])
    }
}

/// Ids strictly increase along `s`.
pub open spec fn ids_ascending(s: Seq<CommentRange>) -> bool {
    forall|i: int, j: int| 0 <= i < j < s.len() ==> s[i].id < s[j].id
}

proof fn lemma_filter_step(s: Seq<CommentRange>, i: int, file: Seq<char>, line: int)
    requires
        0 <= i < s.len(),
    ensures
        containing(s.take(i + 1), file, line) == (if s[i].covers(file, line) {
            containing(s.take(i), file, line).push(s[i])
        } else {
            containing(s.take(i), file, line)
        }),
        not_containing(s.take(i + 1), file, line) == (if s[i].covers(file, line) {
            not_containing(s.take(i), file, line)
        } else {
            not_containing(s.take(i), file, line).push(s[i])
        }),
{
    reveal(Seq::filter);
    assert(s.take(i + 1).drop_last() =~= s.take(i));
}

/// A range found in a prefix stays the first found in the whole sequence.
proof fn lemma_containing_first(s: Seq<CommentRange>, j: int, file: Seq<char>, line: int)
    requires
        0 <= j <= s.len(),
        containing(s.take(j), file, line).len() > 0,
    ensures
        containing(s, file, line).len() > 0,
        containing(s, file, line)[0] == containing(s.take(j), file, line)[0],
    decreases s.len() - j,
{
    if j < s.len() {
        lemma_filter_step(s, j, file, line);
        lemma_containing_first(s, j + 1, file, line);
    } else {
        assert(s.take(j) =~= s);
    }
}

proof fn lemma_in_file_step(s: Seq<CommentRange>, i: int, file: Seq<char>)
    requires
        0 <= i < s.len(),
    ensures
        in_file(s.take(i + 1), file) == (if s[i].file@ == file {
            in_file(s.take(i), file).push(s[i])
        } else {
            in_file(s.take(i), file)
        }),
{
    reveal(Seq::filter);
    assert(s.take(i + 1).drop_last() =~= s.take(i));
}

proof fn lemma_containing_members(s: Seq<CommentRange>, file: Seq<char>, line: int)
    ensures
        forall|k: int| 0 <= k < s.len() && #[trigger] s[k].covers(file, line)
            ==> containing(s, file, line).contains(s[k]),
        forall|x: CommentRange| #[trigger] containing(s, file, line).contains(x)
            ==> s.contains(x) && x.covers(file, line),
        forall|x: CommentRange| #[trigger] not_containing(s, file, line).contains(x)
            ==> s.contains(x) && !x.covers(file, line),
{
    broadcast use vstd::seq_lib::group_filter_ensures, Seq::lemma_filter_contains_rev;

    let c = containing(s, file, line);
    let n = not_containing(s, file, line);
    assert forall|x: CommentRange| #[trigger] c.contains(x) implies s.contains(x) && x.covers(file, line) by {
        let j = choose|j: int| 0 <= j < c.len() && c[j] == x;
        assert(c[j] == x);
    }
    assert forall|x: CommentRange| #[trigger] n.contains(x) implies s.contains(x) && !x.covers(file, line) by {
        let j = choose|j: int| 0 <= j < n.len() && n[j] == x;
        assert(n[j] == x);
    }
}

/// Whenever some range covers `line` of `file`, the lookup
/// ([`Store::find_containing`], which returns `first_containing` of the
/// store's ranges) finds a range, and the range it finds covers that line.
pub proof fn law_find_covers(s: Seq<CommentRange>, file: Seq<char>, line: int, i: int)
    requires
        0 <= i < s.len(),
        s[i].covers(file, line),
    ensures
        first_containing(s, file, line) matches Some(c) && c.covers(file, line) && s.contains(c),
{
    lemma_containing_members(s, file, line);
    assert(containing(s, file, line).contains(s[i]));
    assert(containing(s, file, line).contains(containing(s, file, line)[0]));
}

/// Among several ranges that cover the line, the lookup returns the one with
/// the smallest id.
pub proof fn law_find_smallest_id(s: Seq<CommentRange>, file: Seq<char>, line: int, i: int)
    requires
        ids_ascending(s),
        0 <= i < s.len(),
        s[i].covers(file, line),
        forall|k: int| 0 <= k < s.len() && #[trigger] s[k].covers(file, line) ==> s[i].id <= s[k].id,
    ensures
        first_containing(s, file, line) == Some(s[i]),
{
    let t = s.take(i + 1);
    lemma_filter_step(s, i, file, line);
    lemma_containing_first(s, i + 1, file, line);
    let c = containing(t, file, line)[0];
    lemma_containing_members(t, file, line);
    assert(containing(t, file, line).contains(c));
    let k = choose|k: int| 0 <= k < t.len() && t[k] == c;
    assert(t[k] == s[k]);
    if k < i {
        assert(s[k].id < s[i].id);
    }
}

/// Deleting at a line ([`Store::delete_containing`]) hands back every range
/// that covered it and nothing else, and afterwards the lookup at that line
/// finds nothing.
pub proof fn law_delete_returns_all(s: Seq<CommentRange>, file: Seq<char>, line: int)
    ensures
        forall|k: int| 0 <= k < s.len() && #[trigger] s[k].covers(file, line)
            ==> containing(s, file, line).contains(s[k]),
        forall|x: CommentRange| #[trigger] containing(s, file, line).contains(x)
            ==> s.contains(x) && x.covers(file, line),
        first_containing(not_containing(s, file, line), file, line) is None,
{
    lemma_containing_members(s, file, line);
    let rest = not_containing(s, file, line);
    lemma_containing_members(rest, file, line);
    if containing(rest, file, line).len() > 0 {
        let x = containing(rest, file, line)[0];
        assert(containing(rest, file, line).contains(x));
        assert(rest.contains(x));
    }
}

/// After a range that covers `line` of `file` is added, the lookup at that
/// line finds what it found before, or the new range where it found nothing.
pub proof fn law_add_then_find(s: Seq<CommentRange>, r: CommentRange, file: Seq<char>, line: int)
    requires
        r.covers(file, line),
    ensures
        first_containing(s.push(r), file, line) == (match first_containing(s, file, line) {
            Some(c) => Some(c),
            None => Some(r),
        }),
{
    let t = s.push(r);
    lemma_filter_step(t, s.len() as int, file, line);
    assert(t.take(s.len() as int + 1) =~= t);
    assert(t.take(s.len() as int) =~= s);
}

#[derive(Debug, Clone, Copy, PartialEq, Eq)]
pub enum StoreError {
    /// Every id up to `i64::MAX` has been handed out.
    IdsExhausted,
    /// The persistent copy of the store could not be read or written.
    Persistence,
}

/// The comment ranges of all files, kept in the order of their ids, which is
/// the order in which they were added.
pub struct Store {
    ranges: Vec<CommentRange>,
    next_id: i64,
}

impl Store {
    pub closed spec fn ranges(&self) -> Seq<CommentRange> {
        self.ranges@
    }

    /// The id that the next added range receives.
    pub closed spec fn next_id(&self) -> int {
        self.next_id as int
    }

    pub open spec fn wf(&self) -> bool {
        &&& 1 <= self.next_id()
        &&& ids_ascending(self.ranges())
        &&& forall|i: int|
            0 <= i < self.ranges().len() ==> 1 <= #[trigger] self.ranges()[i].id < self.next_id()
    }

    pub fn new() -> (s: Store)
        ensures
            s.wf(),
            s.ranges() == Seq::<CommentRange>::empty(),
            s.next_id() == 1,
    {
        Store { ranges: Vec::new(), next_id: 1 }
    }

    /// Takes back a range that was added earlier, under its own id. Ranges
    /// must come back in ascending order of id; one that does not is refused
    /// and `false` returned.
    pub fn restore(&mut self, range: CommentRange) -> (ok: bool)
        requires
            old(self).wf(),
        ensures
            final(self).wf(),
            ok == (old(self).next_id() <= range.id < i64::MAX),
            ok ==> final(self).ranges() == old(self).ranges().push(range),
            ok ==> final(self).next_id() == range.id + 1,
            !ok ==> *final(self) == *old(self),
    {
        if range.id < self.next_id || range.id == i64::MAX {
            return false;
        }
        self.next_id = range.id + 1;
        self.ranges.push(range);
        true
    }

    /// A store that holds `saved`, the ranges read back from its persistent
    /// copy. They must come in strictly ascending order of id, each id at
    /// least one and below `i64::MAX`; otherwise there is no store.
    pub fn load(saved: Vec<CommentRange>) -> (r: Option<Store>)
        ensures
            r is Some <==> ids_ascending(saved@) && forall|i: int|
                0 <= i < saved@.len() ==> 1 <= #[trigger] saved@[i].id < i64::MAX,
            r matches Some(s) ==> s.wf() && s.ranges() == saved@,
    {
        let mut store = Store::new();
        let mut i: usize = 0;
        while i < saved.len()
            invariant
                0 <= i <= saved@.len(),
                store.wf(),
                store.ranges() == saved@.take(i as int),
                ids_ascending(saved@.take(i as int)),
                forall|k: int| 0 <= k < i ==> 1 <= #[trigger] saved@[k].id < i64::MAX,
                i > 0 ==> store.next_id() == saved@[i - 1].id + 1,
                i == 0 ==> store.next_id() == 1,
            decreases saved@.len() - i,
        {
            if !store.restore(saved[i].duplicate()) {
                proof {
                    if i > 0 {
                        assert(saved@[i - 1].id >= saved@[i as int].id || saved@[i as int].id == i64::MAX);
                    }
                }
                return None;
            }
            proof {
                assert(store.ranges() =~= saved@.take(i as int + 1));
            }
            i += 1;
        }
        proof {
            assert(saved@.take(saved@.len() as int) =~= saved@);
        }
        Some(store)
    }

    /// Adds a range under a fresh id, larger than every id handed out so far,
    /// and returns that id.
    pub fn add(&mut self, file: &str, start: i64, end: i64, text: &str) -> (r: Result<i64, StoreError>)
        requires
            old(self).wf(),
        ensures
            final(self).wf(),
            r is Err <==> old(self).next_id() == i64::MAX,
            r is Err ==> r == Err::<i64, StoreError>(StoreError::IdsExhausted) && *final(self) == *old(self),
            r matches Ok(id) ==> {
                &&& id == old(self).next_id()
                &&& final(self).next_id() == id + 1
                &&& final(self).ranges().drop_last() == old(self).ranges()
                &&& final(self).ranges().len() == old(self).ranges().len() + 1
                &&& final(self).ranges().last()@ == (RangeView {
                    id: id as int,
                    file: file@,
                    start: start as int,
                    end: end as int,
                    text: text@,
                })
            },
    {
        if self.next_id == i64::MAX {
            return Err(StoreError::IdsExhausted);
        }
        let id = self.next_id;
        let range = CommentRange::new(id, file, start, end, text);
        self.ranges.push(range);
        self.next_id = id + 1;
        proof {
            assert(self.ranges@.drop_last() =~= old(self).ranges@);
        }
        Ok(id)
    }

    /// The range of `file` with the smallest id among those whose interval
    /// holds `line`, or `None` where no range holds it.
    pub fn find_containing(&self, file: &String, line: i64) -> (r: Option<CommentRange>)
        requires
            self.wf(),
        ensures
            r == first_containing(self.ranges(), file@, line as int),
            r matches Some(c) ==> self.ranges().contains(c) && c.covers(file@, line as int),
            r matches Some(c) ==> forall|i: int|
                0 <= i < self.ranges().len() && #[trigger] self.ranges()[i].covers(file@, line as int)
                    ==> c.id <= self.ranges()[i].id,
    {
        let ghost s = self.ranges();
        let mut i: usize = 0;
        while i < self.ranges.len()
            invariant
                self.wf(),
                s == self.ranges(),
                0 <= i <= s.len(),
                containing(s.take(i as int), file@, line as int).len() == 0,
                forall|k: int| 0 <= k < i ==> !(#[trigger] s[k]).covers(file@, line as int),
            decreases s.len() - i,
        {
            proof {
                lemma_filter_step(s, i as int, file@, line as int);
            }
            if self.ranges[i].covers_line(file, line) {
                let c = self.ranges[i].duplicate();
                proof {
                    let t = containing(s.take(i as int), file@, line as int);
                    assert(t.push(s[i as int])[0] == s[i as int]);
                    lemma_containing_first(s, i as int + 1, file@, line as int);
                    assert(s.contains(c)) by { assert(s[i as int] == c); }
                    assert forall|k: int|
                        0 <= k < s.len() && #[trigger] s[k].covers(file@, line as int)
                            implies c.id <= s[k].id by {
                        if k > i {
                            assert(s[i as int].id < s[k].id);
                        }
                    }
                }
                return Some(c);
            }
            i += 1;
        }
        proof {
            assert(s.take(s.len() as int) =~= s);
        }
        None
    }

    /// Removes every range of `file` whose interval holds `line`, and returns
    /// them in ascending order of id. All other ranges stay, in their order.
    pub fn delete_containing(&mut self, file: &String, line: i64) -> (removed: Vec<CommentRange>)
        requires
            old(self).wf(),
        ensures
            final(self).wf(),
            removed@ == containing(old(self).ranges(), file@, line as int),
            final(self).ranges() == not_containing(old(self).ranges(), file@, line as int),
            final(self).next_id() == old(self).next_id(),
    {
        let ghost s = self.ranges();
        let mut kept: Vec<CommentRange> = Vec::new();
        let mut removed: Vec<CommentRange> = Vec::new();
        let mut i: usize = 0;
        while i < self.ranges.len()
            invariant
                old(self).wf(),
                s == old(self).ranges(),
                self.ranges@ == s,
                self.next_id == old(self).next_id(),
                0 <= i <= s.len(),
                removed@ == containing(s.take(i as int), file@, line as int),
                kept@ == not_containing(s.take(i as int), file@, line as int),
                ids_ascending(kept@),
                forall|k: int| 0 <= k < kept@.len() ==> 1 <= #[trigger] kept@[k].id < self.next_id,
                i < s.len() ==> forall|k: int| 0 <= k < kept@.len() ==> #[trigger] kept@[k].id < s[i as int].id,
            decreases s.len() - i,
        {
            proof {
                lemma_filter_step(s, i as int, file@, line as int);
            }
            let r = self.ranges[i].duplicate();
            if r.covers_line(file, line) {
                removed.push(r);
            } else {
                kept.push(r);
            }
            i += 1;
            proof {
                if i < s.len() {
                    assert(s[i - 1].id < s[i as int].id);
                }
            }
        }
        proof {
            assert(s.take(s.len() as int) =~= s);
        }
        self.ranges = kept;
        removed
    }

    /// Every range of `file`, in ascending order of id.
    pub fn list_ranges(&self, file: &String) -> (r: Vec<CommentRange>)
        requires
            self.wf(),
        ensures
            r@ == in_file(self.ranges(), file@),
    {
        let ghost s = self.ranges();
        let mut out: Vec<CommentRange> = Vec::new();
        let mut i: usize = 0;
        while i < self.ranges.len()
            invariant
                s == self.ranges(),
                0 <= i <= s.len(),
                out@ == in_file(s.take(i as int), file@),
            decreases s.len() - i,
        {
            proof {
                lemma_in_file_step(s, i as int, file@);
            }
            if self.ranges[i].file == *file {
                out.push(self.ranges[i].duplicate());
            }
            i += 1;
        }
        proof {
            assert(s.take(s.len() as int) =~= s);
        }
        out
    }
}

} // verus!
