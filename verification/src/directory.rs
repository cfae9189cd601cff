//! Entries of a listed directory: ordering them by name, and the row that
//! shows each of them.

use vstd::prelude::*;
use vstd::std_specs::iter::IteratorSpec;
use crate::format::{decimal, decimal_string, pad_left, pad_right, push_padded_left, push_padded_right};
use crate::text::string_push;

verus! {

/// An entry of a listed directory.
pub struct DirEntry {
    pub name: String,
    pub size: u64,
    pub is_dir: bool,
    /// The modification time, as it is to be shown.
    pub modified: String,
}

/// A directory entry as plain values.
pub struct DirEntryView {
    pub name: Seq<char>,
    pub size: u64,
    pub is_dir: bool,
    pub modified: Seq<char>,
}

impl View for DirEntry {
    type V = DirEntryView;

    open spec fn view(&self) -> DirEntryView {
        DirEntryView {
            name: self.name@,
            size: self.size,
            is_dir: self.is_dir,
            modified: self.modified@,
        }
    }
}

/// The entries as plain values.
pub open spec fn entries_view(v: Seq<DirEntry>) -> Seq<DirEntryView> {
    v.map_values(|e: DirEntry| e@)
}

/// Whether `a` comes before `b` in the lexicographic order of their characters
/// (which is the order of their UTF-8 bytes).
pub open spec fn name_lt(a: Seq<char>, b: Seq<char>) -> bool
    decreases a.len(),
{
    if a.len() == 0 {
        b.len() > 0
    } else if b.len() == 0 {
        false
    } else if a[0] != b[0] {
        a[0] < b[0]
    } else {
        name_lt(a.drop_first(), b.drop_first())
    }
}

/// The order of names is transitive.
pub proof fn lemma_name_lt_transitive(a: Seq<char>, b: Seq<char>, c: Seq<char>)
    requires
        name_lt(a, b),
        name_lt(b, c),
    ensures
        name_lt(a, c),
    decreases a.len(),
{
    if a.len() > 0 && b.len() > 0 && c.len() > 0 && a[0] == b[0] && b[0] == c[0] {
        lemma_name_lt_transitive(a.drop_first(), b.drop_first(), c.drop_first());
    }
}

/// No name comes before itself.
pub proof fn lemma_name_lt_irreflexive(a: Seq<char>)
    ensures
        !name_lt(a, a),
    decreases a.len(),
{
    if a.len() > 0 {
        lemma_name_lt_irreflexive(a.drop_first());
    }
}

/// Whether no entry of `s` comes after a later one.
pub open spec fn sorted_by_name(s: Seq<DirEntryView>) -> bool {
    forall|i: int, k: int| 0 <= i < k < s.len() ==> !name_lt(#[trigger] s[k].name, #[trigger] s[i].name)
}

/// Of two different names, one comes before the other.
pub proof fn lemma_name_lt_total(a: Seq<char>, b: Seq<char>)
    ensures
        name_lt(a, b) || name_lt(b, a) || a == b,
    decreases a.len(),
{
    if a.len() > 0 && b.len() > 0 && a[0] == b[0] {
        lemma_name_lt_total(a.drop_first(), b.drop_first());
        if a.drop_first() == b.drop_first() {
            assert(a =~= seq![a[0]] + a.drop_first());
            assert(b =~= seq![b[0]] + b.drop_first());
        }
    } else if a.len() == 0 && b.len() == 0 {
        assert(a =~= b);
    }
}

/// Whether an entry is named `n`.
pub open spec fn name_is(n: Seq<char>) -> spec_fn(DirEntryView) -> bool {
    |e: DirEntryView| e.name == n
}

/// The entries of `s` named `n`, in their order in `s`.
pub open spec fn named(s: Seq<DirEntryView>, n: Seq<char>) -> Seq<DirEntryView> {
    s.filter(name_is(n))
}

/// No entry of `s` is named `n`.
proof fn lemma_named_none(s: Seq<DirEntryView>, n: Seq<char>)
    requires
        forall|i: int| 0 <= i < s.len() ==> s[i].name != n,
    ensures
        named(s, n) == Seq::<DirEntryView>::empty(),
    decreases s.len(),
{
    reveal(Seq::filter);
    if s.len() > 0 {
        lemma_named_none(s.drop_last(), n);
    }
}

/// Whether name `a` comes before name `b`.
pub fn name_less(a: &str, b: &str) -> (lt: bool)
    ensures
        lt == name_lt(a@, b@),
{
    broadcast use vstd::string::group_string_axioms;

    let mut ia = a.chars();
    let mut ib = b.chars();
    let ghost mut n: int = 0;
    loop
        invariant
            0 <= n <= a@.len(),
            n <= b@.len(),
            ia.remaining() == a@.skip(n),
            ib.remaining() == b@.skip(n),
            name_lt(a@, b@) == name_lt(a@.skip(n), b@.skip(n)),
        decreases a@.len() - n,
    {
        let ca = ia.next();
        let cb = ib.next();
        match (ca, cb) {
            (None, None) => {
                return false;
            },
            (None, Some(_)) => {
                return true;
            },
            (Some(_), None) => {
                return false;
            },
            (Some(x), Some(y)) => {
                if x != y {
                    return x < y;
                }
                proof {
                    assert(a@.skip(n).drop_first() =~= a@.skip(n + 1));
                    assert(b@.skip(n).drop_first() =~= b@.skip(n + 1));
                    n = n + 1;
                }
            },
        }
    }
}

/// The entries ordered by name, as the stable `sort_by` on the names orders
/// them: entries of the same name keep their order.
pub fn sort_by_name(entries: Vec<DirEntry>) -> (sorted: Vec<DirEntry>)
    ensures
        sorted_by_name(entries_view(sorted@)),
        forall|n: Seq<char>| #[trigger] named(entries_view(sorted@), n) == named(entries_view(entries@), n),
        entries_view(sorted@).to_multiset() == entries_view(entries@).to_multiset(),
{
    broadcast use vstd::seq_lib::group_to_multiset_ensures;

    let mut rest = entries;
    let mut sorted: Vec<DirEntry> = Vec::new();
    let ghost all = entries_view(entries@);
    assert(entries_view(sorted@) =~= Seq::<DirEntryView>::empty());
    assert(all.skip(0) =~= all);
    assert(all.take(0) =~= Seq::<DirEntryView>::empty());
    assert forall|n: Seq<char>| #[trigger] named(entries_view(sorted@), n) == named(all.take(0), n) by {
        lemma_named_none(Seq::<DirEntryView>::empty(), n);
    }
    while rest.len() > 0
        invariant
            sorted_by_name(entries_view(sorted@)),
            entries_view(rest@) == all.skip(all.len() - rest@.len()),
            entries_view(sorted@).to_multiset() == all.take(all.len() - rest@.len()).to_multiset(),
            forall|n: Seq<char>| #[trigger] named(entries_view(sorted@), n) == named(
                all.take(all.len() - rest@.len()),
                n,
            ),
            rest@.len() <= all.len(),
        decreases rest@.len(),
    {
        let ghost taken = all.len() - rest@.len();
        let ghost before = rest@;
        let e = rest.remove(0);
        assert(entries_view(before)[0] == before[0]@);
        assert(all.skip(taken)[0] == all[taken]);
        assert(e@ == all[taken]);
        assert(rest@ =~= before.skip(1));
        assert(entries_view(rest@) =~= all.skip(taken + 1)) by {
            assert forall|i: int| 0 <= i < rest@.len() implies entries_view(rest@)[i] == all.skip(taken + 1)[i] by {
                assert(entries_view(before)[i + 1] == before[i + 1]@);
                assert(all.skip(taken)[i + 1] == all[taken + 1 + i]);
            }
        }
        let ghost sv = entries_view(sorted@);
        let mut j: usize = 0;
        while j < sorted.len() && !name_less(e.name.as_str(), sorted[j].name.as_str())
            invariant
                j <= sorted@.len(),
                sv == entries_view(sorted@),
                forall|i: int| 0 <= i < j ==> !name_lt(e@.name, #[trigger] sv[i].name),
            decreases sorted@.len() - j,
        {
            j = j + 1;
        }
        assert(j < sv.len() ==> name_lt(e@.name, sv[j as int].name));
        proof {
            assert forall|i: int, k: int| 0 <= i < k < sv.len() + 1 implies !name_lt(
                #[trigger] sv.insert(j as int, e@)[k].name,
                #[trigger] sv.insert(j as int, e@)[i].name,
            ) by {
                let s2 = sv.insert(j as int, e@);
                if i < j && k == j {
                } else if i == j && k > j {
                    if name_lt(s2[k].name, e@.name) {
                        lemma_name_lt_transitive(s2[k].name, e@.name, sv[j as int].name);
                        if k - 1 == j {
                            lemma_name_lt_irreflexive(sv[j as int].name);
                        } else {
                            assert(!name_lt(sv[k - 1].name, sv[j as int].name));
                        }
                    }
                } else if i < j && k < j {
                    assert(s2[i] == sv[i] && s2[k] == sv[k]);
                } else if i < j && k > j {
                    assert(s2[i] == sv[i] && s2[k] == sv[k - 1]);
                } else {
                    assert(s2[i] == sv[i - 1] && s2[k] == sv[k - 1]);
                }
            }
        }
        proof {
            let ev = e@;
            let s2 = sv.insert(j as int, ev);
            let front = sv.take(j as int);
            let back = sv.skip(j as int);
            assert(s2 =~= front + seq![ev] + back);
            assert(sv =~= front + back);
            assert(all.take(taken + 1) =~= all.take(taken).push(ev));
            assert(seq![ev] =~= Seq::<DirEntryView>::empty().push(ev));
            assert forall|n: Seq<char>| #[trigger] named(s2, n) == named(all.take(taken + 1), n) by {
                let p = name_is(n);
                Seq::filter_distributes_over_add(front + seq![ev], back, p);
                Seq::filter_distributes_over_add(front, seq![ev], p);
                Seq::filter_distributes_over_add(front, back, p);
                Seq::<DirEntryView>::empty().lemma_filter_push(ev, p);
                lemma_named_none(Seq::<DirEntryView>::empty(), n);
                all.take(taken).lemma_filter_push(ev, p);
                assert(named(sv, n) == named(all.take(taken), n));
                if ev.name == n {
                    assert forall|i: int| 0 <= i < back.len() implies back[i].name != n by {
                        assert(back[i] == sv[j + i]);
                        if i > 0 {
                            assert(!name_lt(sv[j + i].name, sv[j as int].name));
                            lemma_name_lt_total(sv[j + i].name, sv[j as int].name);
                            if sv[j + i].name != sv[j as int].name {
                                lemma_name_lt_transitive(ev.name, sv[j as int].name, sv[j + i].name);
                            }
                        }
                        lemma_name_lt_irreflexive(ev.name);
                    }
                    lemma_named_none(back, n);
                    assert(named(s2, n) =~= named(front, n).push(ev));
                    assert(named(sv, n) =~= named(front, n));
                } else {
                    assert(named(s2, n) =~= named(front, n) + named(back, n));
                }
            }
        }
        sorted.insert(j, e);
        assert(entries_view(sorted@) =~= sv.insert(j as int, e@));
        proof {
            vstd::seq_lib::to_multiset_insert(sv, j as int, e@);
            assert(all.take(taken + 1) =~= all.take(taken).push(all[taken]));
            vstd::seq_lib::to_multiset_build(all.take(taken), all[taken]);
        }
    }
    assert(all.take(all.len() as int) =~= all);
    sorted
}

/// The row listing an entry: `d` or `-`, the name left-aligned in 20 columns,
/// the size right-aligned in 10, then the modification time.
pub open spec fn listing_line(e: DirEntryView) -> Seq<char> {
    (if e.is_dir { seq!['d'] } else { seq!['-'] }) + seq![' '] + pad_right(e.name, 20) + seq![' ']
        + pad_left(decimal(e.size as nat), 10) + seq![' '] + e.modified
}

/// The row listing `entry`.
pub fn listing_line_string(entry: &DirEntry) -> (line: String)
    ensures
        line@ == listing_line(entry@),
{
    let mut line = String::new();
    string_push(&mut line, if entry.is_dir { 'd' } else { '-' });
    string_push(&mut line, ' ');
    push_padded_right(&mut line, entry.name.as_str(), 20);
    string_push(&mut line, ' ');
    let size = decimal_string(entry.size);
    push_padded_left(&mut line, size.as_str(), 10);
    string_push(&mut line, ' ');
    line.append(entry.modified.as_str());
    assert(line@ =~= listing_line(entry@));
    line
}

} // verus!
