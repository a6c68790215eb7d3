use vstd::prelude::*;
use crate::error::PapError;
use crate::paper::{rank, earlier, fit_title, identity_of, Paper};

verus! {

/// The first line of a listing: one column per stage, then the title.
pub const HEADER: &'static str = "hash    I    II   III  IV   title";

/// One column of the line under the header.
pub const RULE: &'static str = "\u{23af}";

/// A reached stage: four columns on a blue background, then a space.
pub const SEG_ON: &'static str = "\x1b[44m    \x1b[0m ";

/// A stage not reached yet: five blank columns.
pub const SEG_OFF: &'static str = "     ";

/// Opens the yellow identity column.
pub const KEY_OPEN: &'static str = "\x1b[33m";

/// Closes the identity column.
pub const KEY_CLOSE: &'static str = "\x1b[0m ";

/// Number of identity characters shown.
pub const KEY_LEN: usize = 7;

/// Columns taken by everything on a row but the title.
pub const FIXED_COLUMNS: usize = 28;

/// The fewest columns a title is given.
pub const MIN_TITLE_COLUMNS: usize = 15;

/// `n` copies of `s`, one after the other.
pub open spec fn repeat(s: Seq<char>, n: nat) -> Seq<char>
    decreases n,
{
    if n == 0 {
        Seq::empty()
    } else {
        repeat(s, (n - 1) as nat) + s
    }
}

/// The stage columns of a record at stage `level` (1 to 4): that many reached
/// stages, then blanks for the rest.
pub open spec fn stage_bar(level: nat) -> Seq<char> {
    repeat(SEG_ON@, level) + repeat(SEG_OFF@, (4 - level) as nat)
}

/// The columns given to titles on a terminal `w` columns wide.
pub open spec fn title_width(w: nat) -> nat {
    if w >= FIXED_COLUMNS + MIN_TITLE_COLUMNS {
        (w - FIXED_COLUMNS) as nat
    } else {
        MIN_TITLE_COLUMNS as nat
    }
}

/// The row of a record in a listing `w` columns wide: its shortened identity,
/// its stage columns and its title.
pub open spec fn row(p: Paper, w: nat) -> Seq<char> {
    KEY_OPEN@ + identity_of(p.title@).subrange(0, KEY_LEN as int) + KEY_CLOSE@
        + stage_bar(p.progress.level()) + fit_title(p.title@, title_width(w))
}

/// A snapshot of stored records, in the order in which they were enumerated.
pub struct PaperView {
    pub papers: Vec<Paper>,
}

/// The records of `p` whose flag in `keep` is set, in their order.
pub open spec fn kept(p: Seq<Paper>, keep: Seq<bool>) -> Seq<Paper>
    decreases p.len(),
{
    if p.len() == 0 || keep.len() == 0 {
        Seq::empty()
    } else if keep.last() {
        kept(p.drop_last(), keep.drop_last()).push(p.last())
    } else {
        kept(p.drop_last(), keep.drop_last())
    }
}

/// The records that loaded, in their order.
pub open spec fn loaded(r: Seq<Result<Paper, PapError>>) -> Seq<Paper>
    decreases r.len(),
{
    if r.len() == 0 {
        Seq::empty()
    } else {
        match r.last() {
            Ok(p) => loaded(r.drop_last()).push(p),
            Err(_) => loaded(r.drop_last()),
        }
    }
}

/// The failures among the load results, in their order.
pub open spec fn failures(r: Seq<Result<Paper, PapError>>) -> Seq<PapError>
    decreases r.len(),
{
    if r.len() == 0 {
        Seq::empty()
    } else {
        match r.last() {
            Ok(_) => failures(r.drop_last()),
            Err(e) => failures(r.drop_last()).push(e),
        }
    }
}

/// The rank of each record's modification time (see `rank`).
pub open spec fn ranks(p: Seq<Paper>) -> Seq<int> {
    p.map_values(|x: Paper| rank(x.last_changed))
}

/// Where index `i`, of rank `k`, goes in `o`: after the last entry whose rank is not above `k`.
pub open spec fn slot(ks: Seq<int>, o: Seq<usize>, k: int) -> nat
    decreases o.len(),
{
    if o.len() == 0 {
        0
    } else if k < ks[o.last() as int] {
        slot(ks, o.drop_last(), k)
    } else {
        o.len()
    }
}

/// The indices `0..n` sorted by rank, equal ranks kept in index order.
pub open spec fn order_upto(ks: Seq<int>, n: nat) -> Seq<usize>
    decreases n,
{
    if n == 0 {
        Seq::empty()
    } else {
        let o = order_upto(ks, (n - 1) as nat);
        o.insert(slot(ks, o, ks[n - 1]) as int, (n - 1) as usize)
    }
}

/// The order in which the records of `p` are shown.
pub open spec fn display_order(p: Seq<Paper>) -> Seq<usize> {
    order_upto(ranks(p), p.len())
}

/// Whether index `a` is shown before index `b`: an earlier modification time
/// first, and on equal times the earlier enumerated.
pub open spec fn shown_before(ks: Seq<int>, a: usize, b: usize) -> bool {
    ks[a as int] < ks[b as int] || (ks[a as int] == ks[b as int] && a < b)
}

/// Whether `o` lists indices in the order in which they are shown.
pub open spec fn sorted_for_display(ks: Seq<int>, o: Seq<usize>) -> bool {
    forall|a: int, b: int| 0 <= a < b < o.len() ==> shown_before(ks, #[trigger] o[a], #[trigger] o[b])
}

proof fn lemma_slot(ks: Seq<int>, o: Seq<usize>, k: int)
    requires
        forall|q: int| 0 <= q < o.len() ==> o[q] < ks.len(),
        sorted_for_display(ks, o),
    ensures
        slot(ks, o, k) <= o.len(),
        forall|q: int| slot(ks, o, k) <= q < o.len() ==> k < ks[#[trigger] o[q] as int],
        forall|q: int| 0 <= q < slot(ks, o, k) ==> ks[#[trigger] o[q] as int] <= k,
    decreases o.len(),
{
    if o.len() > 0 {
        let d = o.drop_last();
        assert forall|a: int, b: int| 0 <= a < b < d.len() implies shown_before(ks, #[trigger] d[a], #[trigger] d[b]) by {
            assert(d[a] == o[a] && d[b] == o[b]);
        }
        lemma_slot(ks, d, k);
        if k < ks[o.last() as int] {
            assert forall|q: int| 0 <= q < slot(ks, o, k) implies ks[#[trigger] o[q] as int] <= k by {
                assert(o[q] == d[q]);
            }
            assert forall|q: int| slot(ks, o, k) <= q < o.len() implies k < ks[#[trigger] o[q] as int] by {
                if q < o.len() - 1 {
                    assert(o[q] == d[q]);
                }
            }
        } else {
            assert forall|q: int| 0 <= q < o.len() implies ks[#[trigger] o[q] as int] <= k by {
                if q < o.len() - 1 {
                    assert(shown_before(ks, o[q], o[o.len() - 1]));
                }
            }
        }
    }
}

proof fn lemma_order_upto(ks: Seq<int>, n: nat)
    requires
        n <= ks.len(),
        ks.len() <= usize::MAX,
    ensures
        order_upto(ks, n).len() == n,
        forall|q: int| 0 <= q < n ==> order_upto(ks, n)[q] < n,
        forall|k: usize| k < n ==> order_upto(ks, n).contains(k),
        sorted_for_display(ks, order_upto(ks, n)),
    decreases n,
{
    if n > 0 {
        let m = (n - 1) as nat;
        lemma_order_upto(ks, m);
        let o = order_upto(ks, m);
        let k = ks[m as int];
        lemma_slot(ks, o, k);
        let s = slot(ks, o, k) as int;
        let r = o.insert(s, m as usize);
        assert(r == order_upto(ks, n));
        assert forall|q: int| 0 <= q < r.len() implies #[trigger] r[q] == (if q < s { o[q] } else if q == s {
            m as usize
        } else {
            o[q - 1]
        }) by {}
        assert forall|a: int, b: int| 0 <= a < b < r.len() implies shown_before(ks, #[trigger] r[a], #[trigger] r[b]) by {
            if b < s {
                assert(shown_before(ks, o[a], o[b]));
            } else if a > s {
                assert(shown_before(ks, o[a - 1], o[b - 1]));
            } else if a == s {
                assert(k < ks[o[b - 1] as int]);
            } else if b == s {
                assert(ks[o[a] as int] <= k);
            } else {
                assert(shown_before(ks, o[a], o[b - 1]));
            }
        }
        assert forall|j: usize| j < n implies r.contains(j) by {
            if j == m {
                assert(r[s] == j);
            } else {
                assert(o.contains(j));
                let q = choose|q: int| 0 <= q < o.len() && o[q] == j;
                if q < s {
                    assert(r[q] == j);
                } else {
                    assert(r[q + 1] == j);
                }
            }
        }
    }
}

/// Each record is shown exactly once, in ascending order of modification
/// time, records without one before all others, and records with equal
/// times in the order in which they were enumerated.
pub proof fn lemma_display_order(p: Seq<Paper>)
    requires
        p.len() <= usize::MAX,
    ensures
        display_order(p).len() == p.len(),
        forall|q: int| 0 <= q < p.len() ==> display_order(p)[q] < p.len(),
        forall|k: usize| k < p.len() ==> display_order(p).contains(k),
        forall|a: int, b: int| 0 <= a < b < p.len() ==> shown_before(ranks(p), #[trigger] display_order(p)[a], #[trigger] display_order(p)[b]),
{
    lemma_order_upto(ranks(p), p.len());
}

/// Appends the stage columns of a record at stage `level`.
fn push_stage_bar(out: &mut String, level: u8)
    requires
        1 <= level <= 4,
    ensures
        final(out)@ == old(out)@ + stage_bar(level as nat),
{
    let ghost base = out@;
    let mut j: u8 = 0;
    while j < 4
        invariant
            1 <= level <= 4,
            j <= 4,
            j <= level ==> out@ == base + repeat(SEG_ON@, j as nat),
            j > level ==> out@ == base + repeat(SEG_ON@, level as nat) + repeat(SEG_OFF@, (j - level) as nat),
        decreases 4 - j,
    {
        if j < level {
            out.append(SEG_ON);
            assert(out@ =~= base + repeat(SEG_ON@, (j + 1) as nat));
        } else {
            out.append(SEG_OFF);
            if j == level {
                assert(repeat(SEG_OFF@, 1) =~= SEG_OFF@) by {
                    assert(repeat(SEG_OFF@, 0) =~= Seq::<char>::empty());
                }
            }
            assert(out@ =~= base + repeat(SEG_ON@, level as nat) + repeat(SEG_OFF@, (j + 1 - level) as nat));
        }
        j = j + 1;
    }
    if level == 4 {
        assert(repeat(SEG_OFF@, 0) =~= Seq::<char>::empty());
        assert(out@ =~= base + stage_bar(level as nat));
    } else {
        assert(out@ =~= base + stage_bar(level as nat));
    }
}

/// The row of `p` with its title in `title_cols` columns.
fn row_text(p: &Paper, title_cols: usize) -> (r: String)
    requires
        title_cols >= 3,
    ensures
        r@ == KEY_OPEN@ + identity_of(p.title@).subrange(0, KEY_LEN as int) + KEY_CLOSE@
            + stage_bar(p.progress.level()) + fit_title(p.title@, title_cols as nat),
{
    let id = p.hash();
    let mut out = KEY_OPEN.to_owned();
    out.append(id.as_str().substring_char(0, KEY_LEN));
    out.append(KEY_CLOSE);
    push_stage_bar(&mut out, p.progress.number());
    let t = p.title(title_cols);
    out.append(t.as_str());
    out
}

impl PaperView {
    /// A view of records as they were enumerated from the store.
    pub fn complete_from(papers: Vec<Paper>) -> (r: PaperView)
        ensures
            r.papers@ == papers@,
    {
        PaperView { papers }
    }

    /// A view of the records that loaded from the store, in enumeration order,
    /// and the failures of those that did not: one bad entry spoils no listing,
    /// and none is lost silently.
    pub fn from_loaded(results: Vec<Result<Paper, PapError>>) -> (r: (PaperView, Vec<PapError>))
        ensures
            r.0.papers@ == loaded(results@),
            r.1@ == failures(results@),
    {
        let ghost all = results@;
        let mut rest = results;
        let mut papers: Vec<Paper> = Vec::new();
        let mut errors: Vec<PapError> = Vec::new();
        let ghost mut i: int = 0;
        while rest.len() > 0
            invariant
                0 <= i <= all.len(),
                rest@ == all.subrange(i, all.len() as int),
                papers@ == loaded(all.subrange(0, i)),
                errors@ == failures(all.subrange(0, i)),
            decreases rest@.len(),
        {
            let item = rest.remove(0);
            assert(all.subrange(0, i + 1).drop_last() =~= all.subrange(0, i));
            match item {
                Ok(p) => papers.push(p),
                Err(e) => errors.push(e),
            }
            proof {
                i = i + 1;
            }
            assert(rest@ =~= all.subrange(i, all.len() as int));
        }
        assert(all.subrange(0, i) =~= all);
        (PaperView { papers }, errors)
    }

    /// Keeps the records whose flag is set: `above[i]` tells whether the
    /// similarity of the i-th record's title to the search pattern exceeds the
    /// threshold.
    pub fn view(self, above: &Vec<bool>) -> (r: PaperView)
        requires
            above@.len() == self.papers@.len(),
        ensures
            r.papers@ == kept(self.papers@, above@),
    {
        let ghost all = self.papers@;
        let mut rest = self.papers;
        let mut out: Vec<Paper> = Vec::new();
        let n = above.len();
        let mut i: usize = 0;
        while rest.len() > 0
            invariant
                n == all.len(),
                above@.len() == all.len(),
                i <= all.len(),
                rest@.len() == all.len() - i,
                rest@ == all.subrange(i as int, all.len() as int),
                out@ == kept(all.subrange(0, i as int), above@.subrange(0, i as int)),
            decreases rest@.len(),
        {
            let p = rest.remove(0);
            assert(all.subrange(0, i + 1).drop_last() =~= all.subrange(0, i as int));
            assert(above@.subrange(0, i + 1).drop_last() =~= above@.subrange(0, i as int));
            if above[i] {
                out.push(p);
            }
            i = i + 1;
            assert(rest@ =~= all.subrange(i as int, all.len() as int));
        }
        assert(all.subrange(0, i as int) =~= all);
        assert(above@.subrange(0, i as int) =~= above@);
        PaperView { papers: out }
    }

    /// The order in which the records are shown: ascending by modification
    /// time, records without one first, equal times in enumeration order.
    pub fn display_order(&self) -> (r: Vec<usize>)
        ensures
            r@ == display_order(self.papers@),
            r@.len() == self.papers@.len(),
            forall|q: int| 0 <= q < r@.len() ==> r@[q] < self.papers@.len(),
            forall|k: usize| k < self.papers@.len() ==> r@.contains(k),
            forall|a: int, b: int| 0 <= a < b < r@.len() ==> shown_before(ranks(self.papers@), #[trigger] r@[a], #[trigger] r@[b]),
    {
        let ghost ks = ranks(self.papers@);
        let n = self.papers.len();
        let mut order: Vec<usize> = Vec::new();
        let mut i: usize = 0;
        while i < n
            invariant
                n == self.papers@.len(),
                ks == ranks(self.papers@),
                i <= n,
                order@ == order_upto(ks, i as nat),
                forall|q: int| 0 <= q < order@.len() ==> order@[q] < i,
                order@.len() == i,
            decreases n - i,
        {
            let stamp = self.papers[i].last_changed;
            let mut p: usize = order.len();
            assert(order@.subrange(0, p as int) =~= order@);
            while p > 0 && earlier(stamp, self.papers[order[p - 1]].last_changed)
                invariant
                    n == self.papers@.len(),
                    ks == ranks(self.papers@),
                    i < n,
                    order@ == order_upto(ks, i as nat),
                    forall|q: int| 0 <= q < order@.len() ==> order@[q] < i,
                    p <= order@.len(),
                    stamp == self.papers@[i as int].last_changed,
                    slot(ks, order@, ks[i as int]) == slot(ks, order@.subrange(0, p as int), ks[i as int]),
                decreases p,
            {
                assert(order@.subrange(0, p as int).drop_last() =~= order@.subrange(0, p - 1));
                p = p - 1;
            }
            proof {
                if p > 0 {
                    assert(order@.subrange(0, p as int).last() == order@[p - 1]);
                }
            }
            order.insert(p, i);
            i = i + 1;
        }
        proof {
            lemma_display_order(self.papers@);
        }
        order
    }

    /// The lines of a listing for a terminal `width` columns wide: the header,
    /// a rule as wide as the terminal, then one row per record in display order.
    pub fn render(&self, width: usize) -> (r: Vec<String>)
        ensures
            r@.len() == self.papers@.len() + 2,
            r@[0]@ == HEADER@,
            r@[1]@ == repeat(RULE@, width as nat),
            forall|i: int| 0 <= i < self.papers@.len() ==> #[trigger] r@[i + 2]@ == row(
                self.papers@[display_order(self.papers@)[i] as int], width as nat),
    {
        let order = self.display_order();
        let title_cols: usize = if width >= FIXED_COLUMNS + MIN_TITLE_COLUMNS {
            width - FIXED_COLUMNS
        } else {
            MIN_TITLE_COLUMNS
        };
        let mut lines: Vec<String> = Vec::new();
        lines.push(HEADER.to_owned());
        let mut rule = String::new();
        let mut k: usize = 0;
        while k < width
            invariant
                k <= width,
                rule@ == repeat(RULE@, k as nat),
            decreases width - k,
        {
            rule.append(RULE);
            k = k + 1;
        }
        lines.push(rule);
        let n = order.len();
        let mut i: usize = 0;
        while i < n
            invariant
                n == self.papers@.len(),
                order@ == display_order(self.papers@),
                order@.len() == n,
                forall|q: int| 0 <= q < n ==> order@[q] < n,
                title_cols == title_width(width as nat),
                i <= n,
                lines@.len() == i + 2,
                lines@[0]@ == HEADER@,
                lines@[1]@ == repeat(RULE@, width as nat),
                forall|q: int| 0 <= q < i ==> #[trigger] lines@[q + 2]@ == row(
                    self.papers@[order@[q] as int], width as nat),
            decreases n - i,
        {
            let line = row_text(&self.papers[order[i]], title_cols);
            lines.push(line);
            assert(lines@[i + 2]@ == row(self.papers@[order@[i as int] as int], width as nat));
            i = i + 1;
        }
        lines
    }
}

} // verus!
