//! The process catalog: every known process sorted by name, the part of it
//! that matches the active query, and the selection cursor into that part.

use vstd::prelude::*;
use crate::text::{
    chars_of, contains_chars, contains_seq, copy_text, lemma_text_lt_total,
    lemma_text_lt_transitive, lower_of, lowercase, text_less, text_lt,
};

verus! {

/// A process as the inventory reports it: its identifier and its name.
pub struct ProcessEntry {
    pub id: u32,
    pub name: Vec<char>,
}

impl View for ProcessEntry {
    type V = (u32, Seq<char>);

    open spec fn view(&self) -> (u32, Seq<char>) {
        (self.id, self.name@)
    }
}

impl ProcessEntry {
    pub fn new(id: u32, name: &str) -> (r: ProcessEntry)
        ensures
            r@ == (id, name@),
    {
        ProcessEntry { id, name: chars_of(name) }
    }

    pub fn duplicate(&self) -> (r: ProcessEntry)
        ensures
            r@ == self@,
    {
        ProcessEntry { id: self.id, name: copy_text(&self.name) }
    }
}

/// The abstract value of a list of entries.
pub open spec fn models(s: Seq<ProcessEntry>) -> Seq<(u32, Seq<char>)> {
    s.map_values(|e: ProcessEntry| e@)
}

/// Position `i` of `s` comes before position `j` when sorting by name and
/// keeping equal names in their input order.
pub open spec fn goes_before(s: Seq<(u32, Seq<char>)>, i: int, j: int) -> bool {
    text_lt(s[i].1, s[j].1) || (s[i].1 == s[j].1 && i < j)
}

/// `output` is `input` rearranged by the permutation `p` into name order,
/// equal names in their input order.
pub open spec fn sorts_by_name_with(
    input: Seq<(u32, Seq<char>)>,
    output: Seq<(u32, Seq<char>)>,
    p: Seq<int>,
) -> bool {
    &&& p.len() == input.len()
    &&& output.len() == input.len()
    &&& forall|k: int| 0 <= k < p.len() ==> 0 <= #[trigger] p[k] < input.len()
    &&& forall|k: int, l: int| #![trigger p[k], p[l]] 0 <= k < l < p.len() ==> p[k] != p[l]
    &&& forall|k: int| 0 <= k < p.len() ==> output[k] == input[#[trigger] p[k]]
    &&& forall|k: int, l: int|
        #![trigger p[k], p[l]]
        0 <= k < l < p.len() ==> goes_before(input, p[k], p[l])
}

/// `output` is the stable sort of `input` by name.
pub open spec fn is_stable_name_sort(
    input: Seq<(u32, Seq<char>)>,
    output: Seq<(u32, Seq<char>)>,
) -> bool {
    exists|p: Seq<int>| sorts_by_name_with(input, output, p)
}

/// A name matches a query when the query is empty or when its lowercase form
/// stands in the name's lowercase form.
pub open spec fn name_matches(name: Seq<char>, query: Seq<char>) -> bool {
    query.len() == 0 || contains_seq(lower_of(name), lower_of(query))
}

/// The entries of `s` whose names match `query`, in their order in `s`.
pub open spec fn filter_matching(s: Seq<(u32, Seq<char>)>, query: Seq<char>) -> Seq<
    (u32, Seq<char>),
>
    decreases s.len(),
{
    if s.len() == 0 {
        Seq::empty()
    } else {
        let rest = filter_matching(s.drop_last(), query);
        if name_matches(s.last().1, query) {
            rest.push(s.last())
        } else {
            rest
        }
    }
}

/// `sub` is `s` with some elements left out, the rest in the same order.
pub open spec fn is_subsequence(sub: Seq<(u32, Seq<char>)>, s: Seq<(u32, Seq<char>)>) -> bool {
    exists|m: Seq<int>|
        {
            &&& m.len() == sub.len()
            &&& forall|k: int| 0 <= k < m.len() ==> 0 <= #[trigger] m[k] < s.len()
            &&& forall|k: int| 0 <= k < m.len() ==> sub[k] == s[#[trigger] m[k]]
            &&& forall|k: int, l: int| #![trigger m[k], m[l]] 0 <= k < l < m.len() ==> m[k] < m[l]
        }
}

/// Every entry that the filter keeps matches the query, and the kept entries
/// stand in the same relative order as in the full list.
pub proof fn lemma_filter_matches_in_order(s: Seq<(u32, Seq<char>)>, query: Seq<char>)
    ensures
        forall|k: int|
            0 <= k < filter_matching(s, query).len() ==> name_matches(
                #[trigger] filter_matching(s, query)[k].1,
                query,
            ),
        is_subsequence(filter_matching(s, query), s),
    decreases s.len(),
{
    let f = filter_matching(s, query);
    if s.len() == 0 {
        let m: Seq<int> = Seq::empty();
        assert(f.len() == 0);
        assert(m.len() == f.len());
    } else {
        let rest = filter_matching(s.drop_last(), query);
        lemma_filter_matches_in_order(s.drop_last(), query);
        let m0: Seq<int> = choose|m: Seq<int>|
            {
                &&& m.len() == rest.len()
                &&& forall|k: int| 0 <= k < m.len() ==> 0 <= #[trigger] m[k] < s.drop_last().len()
                &&& forall|k: int| 0 <= k < m.len() ==> rest[k] == s.drop_last()[#[trigger] m[k]]
                &&& forall|k: int, l: int|
                    #![trigger m[k], m[l]]
                    0 <= k < l < m.len() ==> m[k] < m[l]
            };
        if name_matches(s.last().1, query) {
            let m = m0.push(s.len() - 1);
            assert(f == rest.push(s.last()));
            assert forall|k: int| 0 <= k < m.len() implies f[k] == s[#[trigger] m[k]] by {
                if k < m0.len() {
                    assert(m[k] == m0[k]);
                }
            }
            assert forall|k: int, l: int| #![trigger m[k], m[l]] 0 <= k < l < m.len() implies m[k]
                < m[l] by {
                if l < m0.len() {
                    assert(m[k] == m0[k] && m[l] == m0[l]);
                } else {
                    assert(m[k] == m0[k]);
                }
            }
            assert forall|k: int| 0 <= k < m.len() implies 0 <= #[trigger] m[k] < s.len() by {
                if k < m0.len() {
                    assert(m[k] == m0[k]);
                }
            }
        } else {
            assert forall|k: int| 0 <= k < m0.len() implies rest[k] == s[#[trigger] m0[k]] by {
                assert(rest[k] == s.drop_last()[m0[k]]);
            }
        }
    }
}

/// The selection after the list it points into changed to `len` entries: an
/// index past the end moves to the last entry, and a non-empty list always
/// has a selection.
pub open spec fn clamp_selection(sel: Option<usize>, len: int) -> Option<usize> {
    match sel {
        Some(i) => if i >= len {
            Some(if len > 0 { (len - 1) as usize } else { 0usize })
        } else {
            Some(i)
        },
        None => if len > 0 {
            Some(0usize)
        } else {
            None
        },
    }
}

/// The selection one step down, wrapping from the last entry to the first.
pub open spec fn next_selection(sel: Option<usize>, len: int) -> Option<usize> {
    match sel {
        Some(i) => if i + 1 >= len {
            Some(0usize)
        } else {
            Some((i + 1) as usize)
        },
        None => Some(0usize),
    }
}

/// The selection one step up, wrapping from the first entry to the last.
pub open spec fn previous_selection(sel: Option<usize>, len: int) -> Option<usize> {
    match sel {
        Some(i) => if i == 0 {
            Some(if len > 0 { (len - 1) as usize } else { 0usize })
        } else {
            Some((i - 1) as usize)
        },
        None => Some(0usize),
    }
}

/// The entries of `entries` sorted by name in ordinal order, entries with
/// equal names kept in their input order.
pub fn sort_by_name(entries: &Vec<ProcessEntry>) -> (r: Vec<ProcessEntry>)
    ensures
        is_stable_name_sort(models(entries@), models(r@)),
{
    let ghost input = models(entries@);
    let mut out: Vec<ProcessEntry> = Vec::new();
    let ghost mut p: Seq<int> = Seq::empty();
    let mut i: usize = 0;
    while i < entries.len()
        invariant
            input == models(entries@),
            i <= entries@.len(),
            out@.len() == i,
            p.len() == i,
            forall|k: int| 0 <= k < p.len() ==> 0 <= #[trigger] p[k] < i,
            forall|k: int, l: int| #![trigger p[k], p[l]] 0 <= k < l < p.len() ==> p[k] != p[l],
            forall|k: int| 0 <= k < p.len() ==> out@[k]@ == input[#[trigger] p[k]],
            forall|k: int, l: int|
                #![trigger p[k], p[l]]
                0 <= k < l < p.len() ==> goes_before(input, p[k], p[l]),
        decreases entries@.len() - i,
    {
        let e = &entries[i];
        assert(input[i as int] == e@);
        let mut pos: usize = 0;
        while pos < out.len() && !text_less(&e.name, &out[pos].name)
            invariant
                pos <= out@.len(),
                forall|q: int| 0 <= q < pos ==> !text_lt(e.name@, #[trigger] out@[q].name@),
            decreases out@.len() - pos,
        {
            pos = pos + 1;
        }
        let ghost old_out = out@;
        out.insert(pos, e.duplicate());
        proof {
            let np = p.insert(pos as int, i as int);
            assert forall|k: int| 0 <= k < np.len() implies out@[k]@ == input[#[trigger] np[k]] by {
                if k < pos {
                    assert(np[k] == p[k] && out@[k] == old_out[k]);
                } else if k > pos {
                    assert(np[k] == p[k - 1] && out@[k] == old_out[k - 1]);
                }
            }
            assert forall|k: int| 0 <= k < np.len() implies 0 <= #[trigger] np[k] < i + 1 by {
                if k < pos {
                    assert(np[k] == p[k]);
                } else if k > pos {
                    assert(np[k] == p[k - 1]);
                }
            }
            assert forall|k: int, l: int| #![trigger np[k], np[l]] 0 <= k < l < np.len() implies np[k]
                != np[l] && goes_before(input, np[k], np[l]) by {
                if l < pos {
                    assert(np[k] == p[k] && np[l] == p[l]);
                } else if l == pos {
                    assert(np[k] == p[k]);
                    assert(!text_lt(e.name@, old_out[k].name@));
                    assert(old_out[k]@ == input[p[k]]);
                    if !text_lt(input[p[k]].1, input[i as int].1) {
                        lemma_text_lt_total(input[p[k]].1, input[i as int].1);
                    }
                } else if k == pos {
                    assert(np[l] == p[l - 1]);
                    assert(old_out[pos as int]@ == input[p[pos as int]]);
                    assert(text_lt(input[i as int].1, input[p[pos as int]].1));
                    if l - 1 > pos {
                        assert(goes_before(input, p[pos as int], p[l - 1]));
                        if text_lt(input[p[pos as int]].1, input[p[l - 1]].1) {
                            lemma_text_lt_transitive(
                                input[i as int].1,
                                input[p[pos as int]].1,
                                input[p[l - 1]].1,
                            );
                        }
                    }
                } else if k < pos {
                    assert(np[k] == p[k] && np[l] == p[l - 1]);
                } else {
                    assert(np[k] == p[k - 1] && np[l] == p[l - 1]);
                }
            }
            p = np;
        }
        i = i + 1;
    }
    proof {
        let output = models(out@);
        assert forall|k: int| 0 <= k < p.len() implies output[k] == input[#[trigger] p[k]] by {
            assert(output[k] == out@[k]@);
        }
        assert(sorts_by_name_with(input, output, p));
    }
    out
}

/// The entries of `all` whose names contain `query`, compared in lowercase,
/// in their order in `all`; every entry when `query` is empty.
pub fn filter_entries(all: &Vec<ProcessEntry>, query: &Vec<char>) -> (r: Vec<ProcessEntry>)
    ensures
        models(r@) == filter_matching(models(all@), query@),
{
    let ghost full = models(all@);
    let lowered = lowercase(query);
    let mut out: Vec<ProcessEntry> = Vec::new();
    let mut i: usize = 0;
    while i < all.len()
        invariant
            full == models(all@),
            lowered@ == lower_of(query@),
            i <= all@.len(),
            models(out@) == filter_matching(full.take(i as int), query@),
        decreases all@.len() - i,
    {
        let e = &all[i];
        let keep = if query.len() == 0 {
            true
        } else {
            let name = lowercase(&e.name);
            contains_chars(&name, &lowered)
        };
        assert(full.take(i + 1).drop_last() =~= full.take(i as int));
        assert(full.take(i + 1).last() == e@);
        if keep {
            let ghost before = out@;
            out.push(e.duplicate());
            assert(models(out@) =~= models(before).push(e@));
        }
        i = i + 1;
    }
    assert(full.take(all@.len() as int) =~= full);
    out
}

/// The known processes, the ones that match the active query, and the
/// selection cursor into the matching ones.
pub struct Catalog {
    pub all: Vec<ProcessEntry>,
    pub filtered: Vec<ProcessEntry>,
    pub query: Vec<char>,
    pub selected: Option<usize>,
}

impl Catalog {
    /// `filtered` is what the query keeps of `all`, and a non-empty
    /// `filtered` has a selection inside it.
    pub open spec fn wf(&self) -> bool {
        &&& models(self.filtered@) == filter_matching(models(self.all@), self.query@)
        &&& self.filtered@.len() > 0 ==> (self.selected matches Some(i) && i < self.filtered@.len())
    }

    /// An empty catalog with an empty query and no selection.
    pub fn new() -> (r: Catalog)
        ensures
            r.wf(),
            r.all@.len() == 0,
            r.filtered@.len() == 0,
            r.query@.len() == 0,
            r.selected is None,
    {
        let r = Catalog { all: Vec::new(), filtered: Vec::new(), query: Vec::new(), selected: None };
        assert(models(r.all@) =~= Seq::empty());
        r
    }

    /// Rebuilds `filtered` from `all` and the query, then clamps the selection.
    fn refilter(&mut self)
        ensures
            final(self).wf(),
            final(self).all == old(self).all,
            final(self).query == old(self).query,
            models(final(self).filtered@) == filter_matching(models(old(self).all@), old(self).query@),
            final(self).selected == clamp_selection(old(self).selected, final(self).filtered@.len() as int),
    {
        self.filtered = filter_entries(&self.all, &self.query);
        let len = self.filtered.len();
        self.selected = match self.selected {
            Some(i) => if i >= len {
                Some(if len > 0 { len - 1 } else { 0 })
            } else {
                Some(i)
            },
            None => if len > 0 {
                Some(0)
            } else {
                None
            },
        };
    }

    /// Replaces the known processes with `snapshot`, sorted by name (equal
    /// names in snapshot order), and re-applies the active query.
    pub fn refresh(&mut self, snapshot: &Vec<ProcessEntry>)
        ensures
            final(self).wf(),
            is_stable_name_sort(models(snapshot@), models(final(self).all@)),
            final(self).query == old(self).query,
            models(final(self).filtered@) == filter_matching(models(final(self).all@), old(self).query@),
            final(self).selected == clamp_selection(old(self).selected, final(self).filtered@.len() as int),
    {
        self.all = sort_by_name(snapshot);
        self.refilter();
    }

    /// Makes `query` the active query and rebuilds the matching list.
    pub fn set_query(&mut self, query: Vec<char>)
        ensures
            final(self).wf(),
            final(self).all == old(self).all,
            final(self).query@ == query@,
            models(final(self).filtered@) == filter_matching(models(old(self).all@), query@),
            final(self).selected == clamp_selection(old(self).selected, final(self).filtered@.len() as int),
    {
        self.query = query;
        self.refilter();
    }

    /// Moves the selection one entry down, from the last entry to the first.
    pub fn next(&mut self)
        requires
            old(self).wf(),
        ensures
            final(self).wf(),
            final(self).all == old(self).all,
            final(self).filtered == old(self).filtered,
            final(self).query == old(self).query,
            final(self).selected == next_selection(old(self).selected, old(self).filtered@.len() as int),
    {
        let len = self.filtered.len();
        self.selected = match self.selected {
            Some(i) => if i >= len || len - i <= 1 {
                Some(0)
            } else {
                Some(i + 1)
            },
            None => Some(0),
        };
    }

    /// Moves the selection one entry up, from the first entry to the last.
    pub fn previous(&mut self)
        requires
            old(self).wf(),
        ensures
            final(self).wf(),
            final(self).all == old(self).all,
            final(self).filtered == old(self).filtered,
            final(self).query == old(self).query,
            final(self).selected == previous_selection(old(self).selected, old(self).filtered@.len() as int),
    {
        let len = self.filtered.len();
        self.selected = match self.selected {
            Some(i) => if i == 0 {
                Some(if len > 0 { len - 1 } else { 0 })
            } else {
                Some(i - 1)
            },
            None => Some(0),
        };
    }

    /// The identifier of the selected entry, if the selection points at one.
    pub fn selected_id(&self) -> (r: Option<u32>)
        ensures
            r == (match self.selected {
                Some(i) => if i < self.filtered@.len() {
                    Some(self.filtered@[i as int].id)
                } else {
                    None
                },
                None => None,
            }),
    {
        match self.selected {
            Some(i) => if i < self.filtered.len() {
                Some(self.filtered[i].id)
            } else {
                None
            },
            None => None,
        }
    }
}

/// Moving down from the last entry reaches the first, moving up from the
/// first reaches the last, and on a one-entry list both stay on it.
pub proof fn lemma_selection_wraps(len: int)
    requires
        0 < len <= usize::MAX,
    ensures
        next_selection(Some((len - 1) as usize), len) == Some(0usize),
        previous_selection(Some(0usize), len) == Some((len - 1) as usize),
        len == 1 ==> next_selection(Some(0usize), len) == Some(0usize),
        len == 1 ==> previous_selection(Some(0usize), len) == Some(0usize),
{
}

/// Position `k` holds the first entry of `s` with identifier `id`.
pub open spec fn is_first_with_id(s: Seq<(u32, Seq<char>)>, id: u32, k: int) -> bool {
    &&& 0 <= k < s.len()
    &&& s[k].0 == id
    &&& forall|j: int| 0 <= j < k ==> s[j].0 != id
}

/// The name of the first entry with identifier `id`, if any has it.
pub fn find_name(entries: &Vec<ProcessEntry>, id: u32) -> (r: Option<Vec<char>>)
    ensures
        r is None <==> forall|k: int|
            0 <= k < models(entries@).len() ==> models(entries@)[k].0 != id,
        r matches Some(n) ==> exists|k: int|
            is_first_with_id(models(entries@), id, k) && models(entries@)[k].1 == n@,
{
    let ghost s = models(entries@);
    let mut i: usize = 0;
    while i < entries.len()
        invariant
            s == models(entries@),
            i <= entries@.len(),
            forall|j: int| 0 <= j < i ==> s[j].0 != id,
        decreases entries@.len() - i,
    {
        if entries[i].id == id {
            let name = copy_text(&entries[i].name);
            assert(is_first_with_id(s, id, i as int) && s[i as int].1 == name@);
            return Some(name);
        }
        i = i + 1;
    }
    None
}

} // verus!
