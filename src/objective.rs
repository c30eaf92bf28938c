use vstd::prelude::*;

verus! {

/// The identifiers in an objective expression, in order of appearance: the
/// matches of `[[:alpha:]]+[a-zA-Z0-9_]*`.
pub uninterp spec fn identifiers_of(expr: Seq<char>) -> Seq<Seq<char>>;

/// Relies on regex's `Regex::find_iter` with the identifier pattern: the
/// matches depend on the expression's text alone.
#[verifier::external_body]
fn find_identifiers(expr: &str) -> (r: Vec<String>)
    ensures
        r.deep_view() == identifiers_of(expr@),
{
    let pattern = regex::Regex::new("[[:alpha:]]+[a-zA-Z0-9_]*").unwrap();
    pattern.find_iter(expr).map(|m| String::from(m.as_str())).collect()
}

/// `p` is the first position of `x` in `header`.
pub open spec fn first_position(header: Seq<Seq<char>>, x: Seq<char>, p: int) -> bool {
    &&& 0 <= p < header.len()
    &&& header[p] == x
    &&& forall|j: int| 0 <= j < p ==> header[j] != x
}

pub open spec fn in_header(header: Seq<Seq<char>>, x: Seq<char>) -> bool {
    exists|j: int| 0 <= j < header.len() && header[j] == x
}

/// The first position of `x` in `header`, if it is there.
pub fn position_in(header: &Vec<String>, x: &String) -> (r: Option<usize>)
    ensures
        match r {
            Some(p) => first_position(header.deep_view(), x@, p as int),
            None => !in_header(header.deep_view(), x@),
        },
{
    let ghost dh = header.deep_view();
    let mut j: usize = 0;
    while j < header.len()
        invariant
            j <= header@.len(),
            dh == header.deep_view(),
            forall|k: int| 0 <= k < j ==> dh[k] != x@,
        decreases header@.len() - j,
    {
        assert(dh[j as int] == header@[j as int]@);
        if header[j] == *x {
            return Some(j);
        }
        j = j + 1;
    }
    None
}

/// The columns of `header` that hold `measures`: for each measure the first
/// column of its name; or the first measure that no column has.
pub fn measure_indices(measures: &Vec<String>, header: &Vec<String>) -> (r: Result<Vec<usize>, String>)
    ensures
        match r {
            Ok(idx) => idx@.len() == measures@.len()
                && forall|i: int| 0 <= i < idx@.len() ==> first_position(header.deep_view(), measures@[i]@, #[trigger] idx@[i] as int),
            Err(missing) => exists|i: int| 0 <= i < measures@.len()
                && measures@[i]@ == missing@
                && !in_header(header.deep_view(), measures@[i]@)
                && forall|k: int| 0 <= k < i ==> in_header(header.deep_view(), #[trigger] measures@[k]@),
        },
{
    let mut idx: Vec<usize> = Vec::new();
    let mut i: usize = 0;
    while i < measures.len()
        invariant
            i <= measures@.len(),
            idx@.len() == i,
            forall|k: int| 0 <= k < i ==> first_position(header.deep_view(), measures@[k]@, #[trigger] idx@[k] as int),
        decreases measures@.len() - i,
    {
        match position_in(header, &measures[i]) {
            Some(p) => idx.push(p),
            None => {
                let missing = measures[i].clone();
                assert forall|k: int| 0 <= k < i implies in_header(header.deep_view(), #[trigger] measures@[k]@) by {
                    assert(first_position(header.deep_view(), measures@[k]@, idx@[k] as int));
                }
                return Err(missing);
            },
        }
        i = i + 1;
    }
    Ok(idx)
}

/// The measures that an objective expression names and the columns of
/// `header` that hold them; or the first named measure that `header` lacks.
pub fn objective_measures(opt_func: &str, header: &Vec<String>) -> (r: Result<(Vec<String>, Vec<usize>), String>)
    ensures
        match r {
            Ok((names, idx)) => names.deep_view() == identifiers_of(opt_func@)
                && idx@.len() == names@.len()
                && forall|i: int| 0 <= i < idx@.len() ==> first_position(header.deep_view(), names@[i]@, #[trigger] idx@[i] as int),
            Err(missing) => exists|i: int| 0 <= i < identifiers_of(opt_func@).len()
                && identifiers_of(opt_func@)[i] == missing@
                && !in_header(header.deep_view(), identifiers_of(opt_func@)[i])
                && forall|k: int| 0 <= k < i ==> in_header(header.deep_view(), #[trigger] identifiers_of(opt_func@)[k]),
        },
{
    let names = find_identifiers(opt_func);
    let ghost dn = names.deep_view();
    assert forall|i: int| 0 <= i < names@.len() implies #[trigger] names@[i]@ == dn[i] by {}
    match measure_indices(&names, header) {
        Ok(idx) => Ok((names, idx)),
        Err(missing) => Err(missing),
    }
}

} // verus!
