use crate::knobs::Tunable;
use vstd::prelude::*;

verus! {

/// What the profile logic reads of a knob: its name, its permitted values
/// and its current value.
pub struct KnobState {
    pub name: String,
    pub values: Vec<u64>,
    pub current: u64,
}

impl KnobState {
    pub fn of<K: Tunable<u64>>(knob: &K) -> (r: KnobState)
        ensures
            r.name@ == knob.spec_name(),
            r.values@ == knob.spec_values(),
            r.current == knob.spec_current(),
    {
        let values = knob.possible_values().clone();
        assert(values@ =~= knob.spec_values());
        KnobState { name: knob.name(), values, current: knob.get() }
    }
}

/// No two knobs share a name.
pub open spec fn names_distinct(knobs: Seq<KnobState>) -> bool {
    forall|i: int, j: int|
        0 <= i < knobs.len() && 0 <= j < knobs.len() && i != j ==> knobs[i].name@ != knobs[j].name@
}

/// A knob of that name permits the value.
pub open spec fn value_permitted(knobs: Seq<KnobState>, name: Seq<char>, v: u64) -> bool {
    exists|k: int| 0 <= k < knobs.len() && knobs[k].name@ == name && knobs[k].values@.contains(v)
}

/// A knob of that name is currently set to the value.
pub open spec fn value_current(knobs: Seq<KnobState>, name: Seq<char>, v: u64) -> bool {
    exists|k: int| 0 <= k < knobs.len() && knobs[k].name@ == name && knobs[k].current == v
}

/// Every setting of the row but its `id` column is permitted by the knob of
/// the column's name.
pub open spec fn row_permitted(names: Seq<Seq<char>>, row: Seq<u64>, knobs: Seq<KnobState>) -> bool {
    forall|c: int| 0 <= c < names.len() && names[c] != "id"@ ==> value_permitted(knobs, names[c], row[c])
}

/// Every setting of the row but its `id` column is the current value of the
/// knob of the column's name.
pub open spec fn row_current(names: Seq<Seq<char>>, row: Seq<u64>, knobs: Seq<KnobState>) -> bool {
    forall|c: int| 0 <= c < names.len() && names[c] != "id"@ ==> value_current(knobs, names[c], row[c])
}

/// The items of `s` among the first `k` whose position satisfies `keep`, in
/// order.
pub open spec fn kept<A>(s: Seq<A>, keep: spec_fn(int) -> bool, k: int) -> Seq<A>
    decreases k,
{
    if k <= 0 {
        Seq::empty()
    } else if keep(k - 1) {
        kept(s, keep, k - 1).push(s[k - 1])
    } else {
        kept(s, keep, k - 1)
    }
}

pub(crate) fn find_knob(knobs: &Vec<KnobState>, name: &String) -> (r: Option<usize>)
    ensures
        match r {
            Some(k) => k < knobs@.len() && knobs@[k as int].name@ == name@,
            None => forall|k: int| 0 <= k < knobs@.len() ==> knobs@[k].name@ != name@,
        },
{
    let mut k: usize = 0;
    while k < knobs.len()
        invariant
            k <= knobs@.len(),
            forall|j: int| 0 <= j < k ==> knobs@[j].name@ != name@,
        decreases knobs@.len() - k,
    {
        if knobs[k].name == *name {
            return Some(k);
        }
        k = k + 1;
    }
    None
}

fn contains_value(values: &Vec<u64>, v: u64) -> (r: bool)
    ensures
        r == values@.contains(v),
{
    let mut i: usize = 0;
    while i < values.len()
        invariant
            i <= values@.len(),
            forall|j: int| 0 <= j < i ==> values@[j] != v,
        decreases values@.len() - i,
    {
        if values[i] == v {
            return true;
        }
        i = i + 1;
    }
    false
}

fn is_id(name: &String) -> (r: bool)
    ensures
        r == (name@ == "id"@),
{
    let id = String::from_str("id");
    *name == id
}

fn check_row(names: &Vec<String>, row: &Vec<u64>, knobs: &Vec<KnobState>, current: bool) -> (r: bool)
    requires
        row@.len() == names@.len(),
        names_distinct(knobs@),
    ensures
        current ==> r == row_current(names.deep_view(), row@, knobs@),
        !current ==> r == row_permitted(names.deep_view(), row@, knobs@),
{
    let ghost dn = names.deep_view();
    let mut c: usize = 0;
    while c < names.len()
        invariant
            c <= names@.len(),
            dn == names.deep_view(),
            row@.len() == names@.len(),
            names_distinct(knobs@),
            current ==> forall|j: int| 0 <= j < c && dn[j] != "id"@ ==> value_current(knobs@, dn[j], row@[j]),
            !current ==> forall|j: int| 0 <= j < c && dn[j] != "id"@ ==> value_permitted(knobs@, dn[j], row@[j]),
        decreases names@.len() - c,
    {
        assert(dn[c as int] == names@[c as int]@);
        if !is_id(&names[c]) {
            match find_knob(knobs, &names[c]) {
                None => {
                    return false;
                },
                Some(k) => {
                    let ok = if current {
                        knobs[k].current == row[c]
                    } else {
                        contains_value(&knobs[k].values, row[c])
                    };
                    if !ok {
                        assert forall|k2: int| 0 <= k2 < knobs@.len() && knobs@[k2].name@ == dn[c as int]
                            implies k2 == k by {}
                        return false;
                    }
                },
            }
        }
        c = c + 1;
    }
    true
}

/// Whether row `i` of `settings` is permitted by the knobs.
pub open spec fn permitted_rows(names: Seq<Seq<char>>, settings: Seq<Vec<u64>>, knobs: Seq<KnobState>) -> spec_fn(int) -> bool {
    |i: int| row_permitted(names, settings[i]@, knobs)
}

/// The profile entries that the controller works on: for each configuration
/// its measures (of any type `M`) and its knob settings, one per knob-table
/// column.
pub struct ActiveModel<M> {
    measures: Vec<M>,
    knob_names: Vec<String>,
    settings: Vec<Vec<u64>>,
}

impl<M> ActiveModel<M> {
    pub closed spec fn spec_measures(&self) -> Seq<M> {
        self.measures@
    }

    pub closed spec fn spec_names(&self) -> Seq<Seq<char>> {
        self.knob_names.deep_view()
    }

    pub closed spec fn spec_settings(&self) -> Seq<Vec<u64>> {
        self.settings@
    }

    pub open spec fn spec_len(&self) -> nat {
        self.spec_settings().len()
    }

    /// One measure entry per settings row, and one setting per knob name in
    /// each row.
    pub open spec fn wf(&self) -> bool {
        &&& self.spec_measures().len() == self.spec_settings().len()
        &&& forall|i: int| 0 <= i < self.spec_len() ==> #[trigger] self.spec_settings()[i]@.len() == self.spec_names().len()
    }

    /// Pairs the measure entries with the knob table's rows by position; an
    /// entry without a partner is left out.
    pub fn new(measures: Vec<M>, knob_table: &KnobTable) -> (r: ActiveModel<M>)
        requires
            knob_table.wf(),
        ensures
            r.wf(),
            r.spec_names() == knob_table.names.deep_view(),
            r.spec_len() == if measures@.len() < knob_table.configurations@.len() {
                measures@.len()
            } else {
                knob_table.configurations@.len()
            },
            r.spec_measures() == measures@.take(r.spec_len() as int),
            forall|i: int| 0 <= i < r.spec_len() ==> #[trigger] r.spec_settings()[i]@ == knob_table.configurations@[i]@,
    {
        let ghost given = measures@;
        let mut measures = measures;
        let n = if measures.len() < knob_table.configurations.len() {
            measures.len()
        } else {
            knob_table.configurations.len()
        };
        measures.truncate(n);
        let mut settings: Vec<Vec<u64>> = Vec::new();
        let mut i: usize = 0;
        while i < n
            invariant
                i <= n,
                n <= knob_table.configurations@.len(),
                knob_table.wf(),
                settings@.len() == i,
                forall|j: int| 0 <= j < i ==> #[trigger] settings@[j]@ == knob_table.configurations@[j]@,
            decreases n - i,
        {
            let row = knob_table.configurations[i].clone();
            assert(row@ =~= knob_table.configurations@[i as int]@);
            settings.push(row);
            i = i + 1;
        }
        let knob_names = knob_table.names.clone();
        proof {
            assert(knob_names.deep_view() =~= knob_table.names.deep_view());
        }
        assert(measures@ =~= given.take(n as int));
        ActiveModel { measures, knob_names, settings }
    }

    pub fn len(&self) -> (r: usize)
        ensures
            r == self.spec_len(),
    {
        self.settings.len()
    }

    /// The knob-table column names, which the settings rows follow.
    pub fn knob_names(&self) -> (r: &Vec<String>)
        ensures
            r.deep_view() == self.spec_names(),
    {
        &self.knob_names
    }

    pub fn measures(&self) -> (r: &Vec<M>)
        ensures
            r@ == self.spec_measures(),
    {
        &self.measures
    }

    /// The knob settings of entry `idx`, in the order of `knob_names`.
    pub fn get_knob_settings(&self, idx: usize) -> (r: &Vec<u64>)
        requires
            idx < self.spec_len(),
        ensures
            r@ == self.spec_settings()[idx as int]@,
    {
        &self.settings[idx]
    }

    /// Drops the entries with a setting that its knob does not permit, or
    /// whose knob is unknown (the `id` column aside); keeps the order of the
    /// rest and returns how many were dropped.
    pub fn restrict_model(&mut self, knobs: &Vec<KnobState>) -> (dropped: usize)
        requires
            old(self).wf(),
            names_distinct(knobs@),
        ensures
            final(self).wf(),
            final(self).spec_names() == old(self).spec_names(),
            final(self).spec_settings() == kept(
                old(self).spec_settings(),
                permitted_rows(old(self).spec_names(), old(self).spec_settings(), knobs@),
                old(self).spec_len() as int,
            ),
            final(self).spec_measures() == kept(
                old(self).spec_measures(),
                permitted_rows(old(self).spec_names(), old(self).spec_settings(), knobs@),
                old(self).spec_len() as int,
            ),
            forall|j: int| 0 <= j < final(self).spec_len() ==> row_permitted(
                final(self).spec_names(),
                #[trigger] final(self).spec_settings()[j]@,
                knobs@,
            ),
            dropped == old(self).spec_len() - final(self).spec_len(),
    {
        let ghost names = self.spec_names();
        let ghost old_s = self.settings@;
        let ghost old_m = self.measures@;
        let ghost n = old_s.len() as int;
        let ghost keep = permitted_rows(names, old_s, knobs@);
        let original_length = self.settings.len();
        let mut i: usize = 0;
        let ghost mut k: int = 0;
        while i < self.settings.len()
            invariant
                0 <= k <= n,
                n == old_s.len(),
                old_m.len() == n,
                names_distinct(knobs@),
                self.spec_names() == names,
                keep == permitted_rows(names, old_s, knobs@),
                forall|j: int| 0 <= j < n ==> #[trigger] old_s[j]@.len() == names.len(),
                i == kept(old_s, keep, k).len(),
                kept(old_m, keep, k).len() == kept(old_s, keep, k).len(),
                self.settings@ == kept(old_s, keep, k) + old_s.subrange(k, n),
                self.measures@ == kept(old_m, keep, k) + old_m.subrange(k, n),
            decreases n - k,
        {
            assert(self.settings@[i as int] == old_s[k]);
            if check_row(&self.knob_names, &self.settings[i], knobs, false) {
                i = i + 1;
                proof {
                    k = k + 1;
                    assert(self.settings@ =~= kept(old_s, keep, k) + old_s.subrange(k, n));
                    assert(self.measures@ =~= kept(old_m, keep, k) + old_m.subrange(k, n));
                }
            } else {
                self.settings.remove(i);
                self.measures.remove(i);
                proof {
                    k = k + 1;
                    assert(self.settings@ =~= kept(old_s, keep, k) + old_s.subrange(k, n));
                    assert(self.measures@ =~= kept(old_m, keep, k) + old_m.subrange(k, n));
                }
            }
        }
        assert(self.settings@ =~= kept(old_s, keep, n));
        assert(self.measures@ =~= kept(old_m, keep, n));
        proof {
            lemma_kept_rows(old_s, keep, n, names.len());
            lemma_kept_permitted(names, old_s, knobs@, n);
        }
        original_length - self.settings.len()
    }

    /// Orders the entries by their keys (`keys[i]` is the key of entry `i`,
    /// for instance of its constraint measure), keeping the order of entries
    /// with equal keys.
    pub fn sort_by_constraint(&mut self, keys: &Vec<u64>) -> (perm: Ghost<Seq<int>>)
        requires
            old(self).wf(),
            keys@.len() == old(self).spec_len(),
        ensures
            final(self).wf(),
            final(self).spec_names() == old(self).spec_names(),
            final(self).spec_len() == old(self).spec_len(),
            stable_sorted_by(perm@, keys@),
            forall|t: int| 0 <= t < final(self).spec_len() ==> #[trigger] final(self).spec_settings()[t] == old(self).spec_settings()[perm@[t]],
            forall|t: int| 0 <= t < final(self).spec_len() ==> #[trigger] final(self).spec_measures()[t] == old(self).spec_measures()[perm@[t]],
    {
        let ghost old_m = self.measures@;
        let ghost old_s = self.settings@;
        let ghost names = self.spec_names();
        let n = self.settings.len();
        let mut cur: Vec<u64> = keys.clone();
        assert(cur@ =~= keys@);
        let ghost mut perm: Seq<int> = Seq::new(n as nat, |t: int| t);
        let mut i: usize = 0;
        while i < n
            invariant
                i <= n,
                n == old_s.len(),
                old_m.len() == n,
                keys@.len() == n,
                self.spec_names() == names,
                forall|t: int| 0 <= t < n ==> #[trigger] old_s[t]@.len() == names.len(),
                cur@.len() == n,
                self.settings@.len() == n,
                self.measures@.len() == n,
                perm.len() == n,
                is_permutation(perm),
                forall|t: int| i <= t < n ==> #[trigger] perm[t] == t,
                forall|t: int| 0 <= t < i ==> #[trigger] perm[t] < i,
                forall|t: int| 0 <= t < n ==> #[trigger] cur@[t] == keys@[perm[t]],
                forall|t: int| 0 <= t < n ==> #[trigger] self.settings@[t] == old_s[perm[t]],
                forall|t: int| 0 <= t < n ==> #[trigger] self.measures@[t] == old_m[perm[t]],
                forall|a: int, b: int| 0 <= a < b < i ==> cur@[a] <= cur@[b],
                forall|a: int, b: int| 0 <= a < b < i && cur@[a] == cur@[b] ==> perm[a] < perm[b],
            decreases n - i,
        {
            let key = cur[i];
            let mut j: usize = i;
            while j > 0 && cur[j - 1] > key
                invariant
                    j <= i < n,
                    cur@.len() == n,
                    key == cur@[i as int],
                    forall|t: int| j <= t < i ==> cur@[t] > key,
                decreases j,
            {
                j = j - 1;
            }
            let ghost before_perm = perm;
            let ghost before_cur = cur@;
            let ghost before_s = self.settings@;
            let ghost before_m = self.measures@;
            let k = cur.remove(i);
            cur.insert(j, k);
            let row = self.settings.remove(i);
            self.settings.insert(j, row);
            let m = self.measures.remove(i);
            self.measures.insert(j, m);
            proof {
                perm = move_back(before_perm, i as int, j as int);
                assert(cur@ =~= move_back(before_cur, i as int, j as int));
                assert(self.settings@ =~= move_back(before_s, i as int, j as int));
                assert(self.measures@ =~= move_back(before_m, i as int, j as int));
                assert forall|t: int| 0 <= t < n implies #[trigger] cur@[t] == keys@[perm[t]]
                    && self.settings@[t] == old_s[perm[t]]
                    && self.measures@[t] == old_m[perm[t]] by {
                    lemma_move_back_index(before_perm, i as int, j as int, t);
                    lemma_move_back_index(before_cur, i as int, j as int, t);
                    lemma_move_back_index(before_s, i as int, j as int, t);
                    lemma_move_back_index(before_m, i as int, j as int, t);
                }
                assert forall|t: int| 0 <= t < n implies 0 <= #[trigger] perm[t] < n
                    && (t > i ==> perm[t] == t)
                    && (t <= i ==> perm[t] <= i) by {
                    lemma_move_back_index(before_perm, i as int, j as int, t);
                }
                assert forall|a: int, b: int| 0 <= a < b < n implies perm[a] != perm[b] by {
                    lemma_move_back_index(before_perm, i as int, j as int, a);
                    lemma_move_back_index(before_perm, i as int, j as int, b);
                }
                assert forall|a: int, b: int| 0 <= a < b < i + 1 implies cur@[a] <= cur@[b]
                    && (cur@[a] == cur@[b] ==> perm[a] < perm[b]) by {
                    lemma_move_back_index(before_perm, i as int, j as int, a);
                    lemma_move_back_index(before_perm, i as int, j as int, b);
                    lemma_move_back_index(before_cur, i as int, j as int, a);
                    lemma_move_back_index(before_cur, i as int, j as int, b);
                    if j > 0 && a < j && b == j {
                        assert(before_cur[a] <= before_cur[j - 1]);
                    }
                }
            }
            i = i + 1;
        }
        proof {
            assert forall|t: int| 0 <= t < self.spec_len() implies #[trigger] self.spec_settings()[t]@.len() == self.spec_names().len() by {
                assert(self.settings@[t] == old_s[perm[t]]);
            }
            assert forall|a: int, b: int| 0 <= a < b < perm.len() implies keys@[perm[a]] <= keys@[perm[b]] by {
                assert(cur@[a] <= cur@[b]);
            }
            assert forall|a: int, b: int| 0 <= a < b < perm.len() && keys@[perm[a]] == keys@[perm[b]] implies perm[a] < perm[b] by {
                assert(cur@[a] == keys@[perm[a]]);
                assert(cur@[b] == keys@[perm[b]]);
            }
        }
        Ghost(perm)
    }

    /// The first entry whose settings (the `id` column aside) are the knobs'
    /// current values.
    pub fn find_id(&self, knobs: &Vec<KnobState>) -> (r: Option<usize>)
        requires
            self.wf(),
            names_distinct(knobs@),
        ensures
            match r {
                Some(i) => i < self.spec_len()
                    && row_current(self.spec_names(), self.spec_settings()[i as int]@, knobs@)
                    && forall|j: int| 0 <= j < i ==> !row_current(self.spec_names(), #[trigger] self.spec_settings()[j]@, knobs@),
                None => forall|j: int| 0 <= j < self.spec_len() ==> !row_current(self.spec_names(), #[trigger] self.spec_settings()[j]@, knobs@),
            },
    {
        let mut i: usize = 0;
        while i < self.settings.len()
            invariant
                self.wf(),
                names_distinct(knobs@),
                i <= self.spec_len(),
                forall|j: int| 0 <= j < i ==> !row_current(self.spec_names(), #[trigger] self.spec_settings()[j]@, knobs@),
            decreases self.spec_len() - i,
        {
            assert(self.spec_settings()[i as int]@.len() == self.spec_names().len());
            if check_row(&self.knob_names, &self.settings[i], knobs, true) {
                return Some(i);
            }
            i = i + 1;
        }
        None
    }
}

/// `perm` lists each position below its length exactly once.
pub open spec fn is_permutation(perm: Seq<int>) -> bool {
    &&& forall|t: int| 0 <= t < perm.len() ==> 0 <= #[trigger] perm[t] < perm.len()
    &&& forall|a: int, b: int| 0 <= a < b < perm.len() ==> perm[a] != perm[b]
}

/// Entry `t` after a stable sort by `keys` is entry `perm[t]` before it.
pub open spec fn stable_sorted_by(perm: Seq<int>, keys: Seq<u64>) -> bool {
    &&& perm.len() == keys.len()
    &&& is_permutation(perm)
    &&& forall|a: int, b: int| 0 <= a < b < perm.len() ==> keys[perm[a]] <= keys[perm[b]]
    &&& forall|a: int, b: int| 0 <= a < b < perm.len() && keys[perm[a]] == keys[perm[b]] ==> perm[a] < perm[b]
}

/// Moves the item at `i` to `j` (`j <= i`), shifting those between up.
pub open spec fn move_back<A>(s: Seq<A>, i: int, j: int) -> Seq<A> {
    s.remove(i).insert(j, s[i])
}

proof fn lemma_move_back_index<A>(s: Seq<A>, i: int, j: int, t: int)
    requires
        0 <= j <= i < s.len(),
        0 <= t < s.len(),
    ensures
        move_back(s, i, j).len() == s.len(),
        move_back(s, i, j)[t] == if t < j {
            s[t]
        } else if t == j {
            s[i]
        } else if t <= i {
            s[t - 1]
        } else {
            s[t]
        },
{
}

proof fn lemma_kept_rows(s: Seq<Vec<u64>>, keep: spec_fn(int) -> bool, k: int, w: nat)
    requires
        0 <= k <= s.len(),
        forall|j: int| 0 <= j < s.len() ==> #[trigger] s[j]@.len() == w,
    ensures
        forall|j: int| 0 <= j < kept(s, keep, k).len() ==> #[trigger] kept(s, keep, k)[j]@.len() == w,
        kept(s, keep, k).len() <= k,
    decreases k,
{
    if k > 0 {
        lemma_kept_rows(s, keep, k - 1, w);
    }
}

proof fn lemma_kept_permitted(names: Seq<Seq<char>>, s: Seq<Vec<u64>>, knobs: Seq<KnobState>, k: int)
    requires
        0 <= k <= s.len(),
    ensures
        forall|j: int| 0 <= j < kept(s, permitted_rows(names, s, knobs), k).len() ==> row_permitted(
            names,
            #[trigger] kept(s, permitted_rows(names, s, knobs), k)[j]@,
            knobs,
        ),
    decreases k,
{
    if k > 0 {
        lemma_kept_permitted(names, s, knobs, k - 1);
        let keep = permitted_rows(names, s, knobs);
        assert(keep(k - 1) == row_permitted(names, s[k - 1]@, knobs));
        let prev = kept(s, keep, k - 1);
        if keep(k - 1) {
            assert(kept(s, keep, k) == prev.push(s[k - 1]));
            assert forall|j: int| 0 <= j < kept(s, keep, k).len() implies row_permitted(
                names,
                #[trigger] kept(s, keep, k)[j]@,
                knobs,
            ) by {
                if j < prev.len() {
                    assert(kept(s, keep, k)[j] == prev[j]);
                }
            }
        }
    }
}

/// The knob table: the names of its columns and one row of settings per
/// profiled configuration.
pub struct KnobTable {
    pub names: Vec<String>,
    pub configurations: Vec<Vec<u64>>,
}

impl KnobTable {
    /// Each row has one setting per column.
    pub open spec fn wf(&self) -> bool {
        forall|i: int| 0 <= i < self.configurations@.len() ==> #[trigger] self.configurations@[i]@.len() == self.names@.len()
    }
}

/// The columns of a table as rows; the first row gives the number of
/// columns, and no row may be shorter.
pub fn transpose<T: Copy>(table: &[Vec<T>]) -> (r: Vec<Vec<T>>)
    requires
        table@.len() > 0,
        forall|row: int| 0 <= row < table@.len() ==> #[trigger] table@[row]@.len() >= table@[0]@.len(),
    ensures
        r@.len() == table@[0]@.len(),
        forall|c: int| 0 <= c < r@.len() ==> #[trigger] r@[c]@ == Seq::new(table@.len(), |row: int| table@[row]@[c]),
{
    let width = table[0].len();
    let mut r: Vec<Vec<T>> = Vec::new();
    let mut c: usize = 0;
    while c < width
        invariant
            c <= width,
            width == table@[0]@.len(),
            table@.len() > 0,
            forall|row: int| 0 <= row < table@.len() ==> #[trigger] table@[row]@.len() >= table@[0]@.len(),
            r@.len() == c,
            forall|k: int| 0 <= k < c ==> #[trigger] r@[k]@ == Seq::new(table@.len(), |row: int| table@[row]@[k]),
        decreases width - c,
    {
        let mut column: Vec<T> = Vec::new();
        let mut row: usize = 0;
        while row < table.len()
            invariant
                row <= table@.len(),
                c < width,
                width == table@[0]@.len(),
                forall|q: int| 0 <= q < table@.len() ==> #[trigger] table@[q]@.len() >= table@[0]@.len(),
                column@ == Seq::new(row as nat, |q: int| table@[q]@[c as int]),
            decreases table@.len() - row,
        {
            assert(table@[row as int]@.len() >= width);
            column.push(table[row][c]);
            row = row + 1;
            assert(column@ =~= Seq::new(row as nat, |q: int| table@[q]@[c as int]));
        }
        r.push(column);
        c = c + 1;
    }
    r
}

} // verus!
