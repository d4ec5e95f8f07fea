use vstd::prelude::*;
use crate::palette::Rgb;
use crate::sections::{section_views, SectionView, TransactionByteSection};

verus! {

/// A line of the legend: a label and the colour its bytes are drawn in.
#[derive(Clone, Debug)]
pub struct LegendEntry {
    pub label: String,
    pub color: Rgb,
}

pub open spec fn entry_views(e: Seq<LegendEntry>) -> Seq<(Seq<char>, Rgb)> {
    e.map_values(|x: LegendEntry| (x.label@, x.color))
}

/// The label under which a section is listed, if any: an absent or empty
/// label keeps it out of the legend.
pub open spec fn shown_label(s: SectionView) -> Option<Seq<char>> {
    match s.label {
        Some(l) => if l.len() > 0 {
            Some(l)
        } else {
            None
        },
        None => None,
    }
}

pub open spec fn has_label(entries: Seq<(Seq<char>, Rgb)>, l: Seq<char>) -> bool {
    exists|i: int| 0 <= i < entries.len() && #[trigger] entries[i].0 == l
}

/// One entry per distinct shown label, in the order in which each first
/// appears, with the colour of that first section.
pub open spec fn legend_of(s: Seq<SectionView>) -> Seq<(Seq<char>, Rgb)>
    decreases s.len(),
{
    if s.len() == 0 {
        Seq::empty()
    } else {
        let prev = legend_of(s.drop_last());
        match shown_label(s.last()) {
            Some(l) => if has_label(prev, l) {
                prev
            } else {
                prev.push((l, s.last().color))
            },
            None => prev,
        }
    }
}

/// The legend of a section list.
pub fn legend_entries(sections: &[TransactionByteSection]) -> (entries: Vec<LegendEntry>)
    ensures
        entry_views(entries@) == legend_of(section_views(sections@)),
{
    let mut entries: Vec<LegendEntry> = Vec::new();
    let mut k: usize = 0;
    while k < sections.len()
        invariant
            k <= sections@.len(),
            entry_views(entries@) == legend_of(section_views(sections@.take(k as int))),
        decreases sections@.len() - k,
    {
        let section = &sections[k];
        let ghost prefix = section_views(sections@.take(k + 1));
        proof {
            assert(prefix.drop_last() =~= section_views(sections@.take(k as int)));
            assert(prefix.last() == section@);
        }
        match &section.label {
            Some(label) => {
                if !label.as_str().is_empty() {
                    let mut found = false;
                    let mut j: usize = 0;
                    while j < entries.len()
                        invariant
                            j <= entries@.len(),
                            found == exists|i: int|
                                0 <= i < j && #[trigger] entries@[i].label@ == label@,
                        decreases entries@.len() - j,
                    {
                        if entries[j].label == *label {
                            found = true;
                        }
                        j += 1;
                    }
                    proof {
                        let ev = entry_views(entries@);
                        if found {
                            let i = choose|i: int|
                                0 <= i < j && #[trigger] entries@[i].label@ == label@;
                            assert(ev[i].0 == label@);
                        } else {
                            assert forall|i: int| 0 <= i < ev.len() implies #[trigger] ev[i].0
                                != label@ by {
                                assert(entries@[i].label@ != label@);
                            }
                        }
                    }
                    if !found {
                        entries.push(LegendEntry { label: label.clone(), color: section.color });
                        assert(entry_views(entries@) =~= legend_of(prefix));
                    }
                }
            },
            None => {},
        }
        k += 1;
    }
    assert(sections@.take(sections@.len() as int) =~= sections@);
    entries
}

/// The legend entry `e` stands for the first section shown under its label,
/// and has that section's colour.
pub open spec fn entry_first_shown(s: Seq<SectionView>, e: (Seq<char>, Rgb)) -> bool {
    exists|k: int| #[trigger] first_at(s, e.0, k) && s[k].color == e.1
}

/// Section `k` is the first to be listed under label `l`.
pub open spec fn first_at(s: Seq<SectionView>, l: Seq<char>, k: int) -> bool {
    &&& 0 <= k < s.len()
    &&& shown_label(s[k]) == Some(l)
    &&& forall|j: int| 0 <= j < k ==> shown_label(#[trigger] s[j]) != Some(l)
}

proof fn lemma_first_at_prefix(s: Seq<SectionView>, l: Seq<char>, k: int)
    requires
        s.len() > 0,
        0 <= k < s.len() - 1,
    ensures
        first_at(s, l, k) == first_at(s.drop_last(), l, k),
{
    let t = s.drop_last();
    assert forall|j: int| 0 <= j <= k implies s[j] == #[trigger] t[j] by {}
    if first_at(s, l, k) {
        assert forall|j: int| 0 <= j < k implies shown_label(#[trigger] t[j]) != Some(l) by {
            assert(s[j] == t[j]);
        }
    }
    if first_at(t, l, k) {
        assert forall|j: int| 0 <= j < k implies shown_label(#[trigger] s[j]) != Some(l) by {
            assert(s[j] == t[j]);
        }
    }
}

/// The legend lists each shown label once, and lists every one; each entry
/// stands for the first section shown under its label and has that section's
/// colour; entries come in the order in which their labels first appear.
pub proof fn lemma_legend_dedup(s: Seq<SectionView>)
    ensures
        forall|i: int, j: int|
            0 <= i < j < legend_of(s).len() ==> #[trigger] legend_of(s)[i].0
                != #[trigger] legend_of(s)[j].0,
        forall|k: int|
            0 <= k < s.len() && (#[trigger] shown_label(s[k])) is Some ==> has_label(
                legend_of(s),
                shown_label(s[k])->0,
            ),
        forall|i: int|
            0 <= i < legend_of(s).len() ==> entry_first_shown(s, #[trigger] legend_of(s)[i]),
        forall|i: int, j: int, ki: int, kj: int|
            0 <= i < j < legend_of(s).len() && #[trigger] first_at(s, legend_of(s)[i].0, ki)
                && #[trigger] first_at(s, legend_of(s)[j].0, kj) ==> ki < kj,
    decreases s.len(),
{
    if s.len() == 0 {
        return;
    }
    let t = s.drop_last();
    let n = t.len() as int;
    let prev = legend_of(t);
    let leg = legend_of(s);
    lemma_legend_dedup(t);
    assert forall|k: int| 0 <= k < n implies #[trigger] s[k] == t[k] by {}
    // A label of the earlier legend first shows before the last section.
    assert forall|i: int, k: int|
        0 <= i < prev.len() && #[trigger] first_at(s, prev[i].0, k) implies k < n && first_at(
        t,
        prev[i].0,
        k,
    ) by {
        let kt = choose|kt: int| #[trigger] first_at(t, prev[i].0, kt) && t[kt].color == prev[i].1;
        assert(s[kt] == t[kt]);
        if k == n {
            assert(shown_label(s[kt]) == Some(prev[i].0));
            assert(false);
        }
        lemma_first_at_prefix(s, prev[i].0, k);
    }
    assert forall|i: int, k: int|
        0 <= i < prev.len() && #[trigger] first_at(t, prev[i].0, k) implies first_at(
        s,
        prev[i].0,
        k,
    ) by {
        lemma_first_at_prefix(s, prev[i].0, k);
    }
    match shown_label(s.last()) {
        Some(l) => {
            if !has_label(prev, l) {
                assert(leg == prev.push((l, s.last().color)));
                assert forall|j: int| 0 <= j < n implies shown_label(#[trigger] s[j]) != Some(l) by {
                    assert(s[j] == t[j]);
                }
                assert(first_at(s, l, n));
                assert forall|i: int| 0 <= i < leg.len() implies entry_first_shown(
                    s,
                    #[trigger] leg[i],
                ) by {
                    if i < prev.len() {
                        assert(leg[i] == prev[i]);
                        let kt = choose|kt: int| #[trigger] first_at(t, prev[i].0, kt) && t[kt].color == prev[i].1;
                        lemma_first_at_prefix(s, prev[i].0, kt);
                        assert(s[kt] == t[kt]);
                        assert(first_at(s, leg[i].0, kt));
                    } else {
                        assert(first_at(s, leg[i].0, n));
                    }
                }
                assert forall|i: int, j: int|
                    0 <= i < j < leg.len() implies #[trigger] leg[i].0 != #[trigger] leg[j].0 by {
                    if j == prev.len() {
                        assert(leg[i] == prev[i]);
                    } else {
                        assert(leg[i] == prev[i] && leg[j] == prev[j]);
                    }
                }
                assert forall|k: int|
                    0 <= k < s.len() && (#[trigger] shown_label(s[k])) is Some implies has_label(
                    leg,
                    shown_label(s[k])->0,
                ) by {
                    if k == n {
                        assert(leg[prev.len() as int].0 == l);
                    } else {
                        assert(s[k] == t[k]);
                        let i = choose|i: int|
                            0 <= i < prev.len() && #[trigger] prev[i].0 == shown_label(t[k])->0;
                        assert(leg[i] == prev[i]);
                    }
                }
                assert forall|i: int, j: int, ki: int, kj: int|
                    0 <= i < j < leg.len() && #[trigger] first_at(s, leg[i].0, ki)
                        && #[trigger] first_at(s, leg[j].0, kj) implies ki < kj by {
                    assert(leg[i] == prev[i]);
                    if j == prev.len() {
                        if kj < n {
                            assert(s[kj] == t[kj]);
                        }
                    } else {
                        assert(leg[j] == prev[j]);
                    }
                }
                return;
            }
        },
        None => {},
    }
    assert(leg == prev);
    assert forall|k: int|
        0 <= k < s.len() && (#[trigger] shown_label(s[k])) is Some implies has_label(
        leg,
        shown_label(s[k])->0,
    ) by {
        if k < n {
            assert(s[k] == t[k]);
        }
    }
    assert forall|i: int| 0 <= i < leg.len() implies entry_first_shown(s, #[trigger] leg[i]) by {
        let kt = choose|kt: int| #[trigger] first_at(t, prev[i].0, kt) && t[kt].color == prev[i].1;
        lemma_first_at_prefix(s, prev[i].0, kt);
        assert(s[kt] == t[kt]);
        assert(first_at(s, leg[i].0, kt));
    }
}

} // verus!
