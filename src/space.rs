use crate::profile::{find_knob, names_distinct, KnobState, KnobTable};
use itertools::Itertools;
use vstd::prelude::*;

verus! {

/// `a` comes before `b`, or equals it, in the order of their characters.
pub open spec fn chars_le(a: Seq<char>, b: Seq<char>) -> bool
    decreases a.len(),
{
    if a.len() == 0 {
        true
    } else if b.len() == 0 {
        false
    } else if a[0] != b[0] {
        (a[0] as u32) < (b[0] as u32)
    } else {
        chars_le(a.drop_first(), b.drop_first())
    }
}

pub open spec fn sorted_chars(s: Seq<Seq<char>>) -> bool {
    forall|i: int, j: int| 0 <= i < j < s.len() ==> chars_le(#[trigger] s[i], #[trigger] s[j])
}

/// Relies on itertools' `sorted`, which sorts a `Vec` with `slice::sort`:
/// the same strings, in the order of `String`'s `Ord`, which compares the
/// characters one by one.
#[verifier::external_body]
fn sorted_strings(names: &Vec<String>) -> (r: Vec<String>)
    ensures
        r.deep_view().to_multiset() == names.deep_view().to_multiset(),
        r@.len() == names@.len(),
        sorted_chars(r.deep_view()),
{
    names.iter().cloned().sorted().collect()
}

/// Every way of picking one value of each list, the last list varying
/// fastest.
pub open spec fn product(lists: Seq<Seq<u64>>) -> Seq<Seq<u64>>
    decreases lists.len(),
{
    if lists.len() == 0 {
        seq![Seq::empty()]
    } else {
        let rest = product(lists.drop_first());
        lists[0].map_values(|v: u64| rest.map_values(|t: Seq<u64>| seq![v] + t)).flatten()
    }
}

/// The product of no lists holds nothing; otherwise as `product`.
pub open spec fn multi_product(lists: Seq<Seq<u64>>) -> Seq<Seq<u64>> {
    if lists.len() == 0 {
        Seq::empty()
    } else {
        product(lists)
    }
}

/// Relies on itertools' `multi_cartesian_product`: it yields the cartesian
/// product with the rightmost list advancing first, and nothing when it is
/// given no lists.
#[verifier::external_body]
fn cartesian_product(lists: &Vec<Vec<u64>>) -> (r: Vec<Vec<u64>>)
    ensures
        r.deep_view() == multi_product(lists.deep_view()),
{
    lists.iter().map(|l| l.iter().copied()).multi_cartesian_product().collect()
}

/// The permitted values of the knob with that name (none if no knob has it).
pub open spec fn knob_values(knobs: Seq<KnobState>, name: Seq<char>) -> Seq<u64> {
    if exists|k: int| 0 <= k < knobs.len() && knobs[k].name@ == name {
        knobs[choose|k: int| 0 <= k < knobs.len() && knobs[k].name@ == name].values@
    } else {
        Seq::empty()
    }
}

pub open spec fn knob_names_of(knobs: Seq<KnobState>) -> Seq<Seq<char>> {
    knobs.map_values(|k: KnobState| k.name@)
}

/// The configuration space to profile: a table whose columns are `id` and
/// then the knobs' names in sorted order, with one row per combination of
/// permitted values (the last column varying fastest), numbered from 0.
pub open spec fn space_rows(names: Seq<Seq<char>>, knobs: Seq<KnobState>) -> Seq<Seq<u64>> {
    let combos = multi_product(names.map_values(|n: Seq<char>| knob_values(knobs, n)));
    Seq::new(combos.len(), |i: int| seq![i as u64] + combos[i])
}

impl KnobTable {
    /// The table of every configuration of the knobs, for profiling.
    pub fn profile_space(knobs: &Vec<KnobState>) -> (r: KnobTable)
        requires
            names_distinct(knobs@),
        ensures
            r.wf(),
            r.names@.len() == knobs@.len() + 1,
            r.names@[0]@ == "id"@,
            r.names.deep_view().drop_first().to_multiset() == knob_names_of(knobs@).to_multiset(),
            sorted_chars(r.names.deep_view().drop_first()),
            r.configurations.deep_view() == space_rows(r.names.deep_view().drop_first(), knobs@),
    {
        let mut plain: Vec<String> = Vec::new();
        let mut i: usize = 0;
        while i < knobs.len()
            invariant
                i <= knobs@.len(),
                plain.deep_view() == knob_names_of(knobs@).take(i as int),
            decreases knobs@.len() - i,
        {
            let nm = knobs[i].name.clone();
            let ghost before = plain.deep_view();
            plain.push(nm);
            proof {
                assert(plain.deep_view() =~= before.push(nm@));
            }
            i = i + 1;
            assert(plain.deep_view() =~= knob_names_of(knobs@).take(i as int));
        }
        assert(knob_names_of(knobs@).take(i as int) =~= knob_names_of(knobs@));
        let sorted = sorted_strings(&plain);
        let ghost sn = sorted.deep_view();
        let mut lists: Vec<Vec<u64>> = Vec::new();
        let mut j: usize = 0;
        while j < sorted.len()
            invariant
                j <= sorted@.len(),
                sn == sorted.deep_view(),
                names_distinct(knobs@),
                lists.deep_view() == sn.take(j as int).map_values(|n: Seq<char>| knob_values(knobs@, n)),
            decreases sorted@.len() - j,
        {
            let vals = match find_knob(knobs, &sorted[j]) {
                Some(k) => {
                    let v = knobs[k].values.clone();
                    assert(v@ =~= knobs@[k as int].values@);
                    v
                },
                None => Vec::new(),
            };
            assert(vals@ == knob_values(knobs@, sn[j as int]));
            let ghost before = lists.deep_view();
            assert(vals.deep_view() =~= vals@);
            lists.push(vals);
            proof {
                assert(lists.deep_view() =~= before.push(vals@));
            }
            j = j + 1;
            assert(lists.deep_view() =~= sn.take(j as int).map_values(|n: Seq<char>| knob_values(knobs@, n)));
        }
        assert(sn.take(j as int) =~= sn);
        let combos = cartesian_product(&lists);
        let ghost cv = combos.deep_view();
        let mut configurations: Vec<Vec<u64>> = Vec::new();
        let mut c: usize = 0;
        while c < combos.len()
            invariant
                c <= combos@.len(),
                cv == combos.deep_view(),
                cv == multi_product(sn.map_values(|n: Seq<char>| knob_values(knobs@, n))),
                configurations.deep_view() == space_rows(sn, knobs@).take(c as int),
            decreases combos@.len() - c,
        {
            let mut row: Vec<u64> = Vec::new();
            row.push(c as u64);
            let mut e: usize = 0;
            while e < combos[c].len()
                invariant
                    e <= combos@[c as int]@.len(),
                    c < combos@.len(),
                    row@ == seq![c as u64] + combos@[c as int]@.take(e as int),
                decreases combos@[c as int]@.len() - e,
            {
                row.push(combos[c][e]);
                e = e + 1;
                assert(row@ =~= seq![c as u64] + combos@[c as int]@.take(e as int));
            }
            assert(combos@[c as int]@.take(e as int) =~= combos@[c as int]@);
            let ghost before = configurations.deep_view();
            assert(row.deep_view() =~= row@);
            assert(combos@[c as int].deep_view() =~= combos@[c as int]@);
            assert(cv[c as int] == combos@[c as int].deep_view());
            configurations.push(row);
            proof {
                assert(configurations.deep_view() =~= before.push(row@));
            }
            c = c + 1;
            assert(configurations.deep_view() =~= space_rows(sn, knobs@).take(c as int));
        }
        assert(space_rows(sn, knobs@).take(c as int) =~= space_rows(sn, knobs@));
        let mut names: Vec<String> = Vec::new();
        names.push(String::from_str("id"));
        let mut n: usize = 0;
        while n < sorted.len()
            invariant
                n <= sorted@.len(),
                sn == sorted.deep_view(),
                names@.len() == n + 1,
                names@[0]@ == "id"@,
                names.deep_view().drop_first() == sn.take(n as int),
            decreases sorted@.len() - n,
        {
            names.push(sorted[n].clone());
            n = n + 1;
            assert(names.deep_view().drop_first() =~= sn.take(n as int));
        }
        assert(sn.take(n as int) =~= sn);
        let r = KnobTable { names, configurations };
        proof {
            lemma_space_rows_width(sn, knobs@);
            assert forall|i: int| 0 <= i < r.configurations@.len() implies #[trigger] r.configurations@[i]@.len() == r.names@.len() by {
                assert(r.configurations@[i]@ == r.configurations.deep_view()[i]);
            }
        }
        r
    }
}

proof fn lemma_space_rows_width(names: Seq<Seq<char>>, knobs: Seq<KnobState>)
    ensures
        forall|i: int| 0 <= i < space_rows(names, knobs).len() ==> #[trigger] space_rows(names, knobs)[i].len() == names.len() + 1,
{
    let lists = names.map_values(|n: Seq<char>| knob_values(knobs, n));
    if lists.len() > 0 {
        lemma_product_width(lists);
    }
}

proof fn lemma_product_width(lists: Seq<Seq<u64>>)
    ensures
        forall|i: int| 0 <= i < product(lists).len() ==> #[trigger] product(lists)[i].len() == lists.len(),
    decreases lists.len(),
{
    if lists.len() > 0 {
        let rest = product(lists.drop_first());
        lemma_product_width(lists.drop_first());
        let parts = lists[0].map_values(|v: u64| rest.map_values(|t: Seq<u64>| seq![v] + t));
        assert forall|p: int| 0 <= p < parts.len() implies forall|i: int| 0 <= i < #[trigger] parts[p].len() ==> #[trigger] parts[p][i].len() == lists.len() by {
            assert forall|i: int| 0 <= i < parts[p].len() implies #[trigger] parts[p][i].len() == lists.len() by {
                assert(parts[p][i] == seq![lists[0][p]] + rest[i]);
            }
        }
        lemma_flatten_width(parts, lists.len());
    }
}

proof fn lemma_flatten_width(parts: Seq<Seq<Seq<u64>>>, w: nat)
    requires
        forall|p: int| 0 <= p < parts.len() ==> forall|i: int| 0 <= i < #[trigger] parts[p].len() ==> #[trigger] parts[p][i].len() == w,
    ensures
        forall|i: int| 0 <= i < parts.flatten().len() ==> #[trigger] parts.flatten()[i].len() == w,
    decreases parts.len(),
{
    if parts.len() > 0 {
        lemma_flatten_width(parts.drop_first(), w);
        let f = parts.flatten();
        assert(f == parts.first() + parts.drop_first().flatten());
        assert forall|i: int| 0 <= i < f.len() implies #[trigger] f[i].len() == w by {
            if i < parts.first().len() {
                assert(f[i] == parts[0][i]);
            } else {
                assert(f[i] == parts.drop_first().flatten()[i - parts.first().len()]);
                assert forall|p: int| 0 <= p < parts.drop_first().len() implies forall|k: int| 0 <= k < #[trigger] parts.drop_first()[p].len() ==> #[trigger] parts.drop_first()[p][k].len() == w by {
                    assert(parts.drop_first()[p] == parts[p + 1]);
                }
            }
        }
    }
}

} // verus!
