use crate::csv::{parse_cell, parse_u64, split, split_chars};
use vstd::prelude::*;

verus! {

/// How the pole adapter derives the error's derivative.
#[derive(Clone, Copy, Debug, PartialEq, Eq, Structural)]
pub enum AdaptationKind {
    Linear,
    Ewma,
    Modeled,
}

impl AdaptationKind {
    /// The kind that `name` stands for: `linear`, `ewma` or `modeled`.
    pub fn from_name(name: &String) -> (r: Option<AdaptationKind>)
        ensures
            r == (if name@ == "linear"@ {
                Some(AdaptationKind::Linear)
            } else if name@ == "ewma"@ {
                Some(AdaptationKind::Ewma)
            } else if name@ == "modeled"@ {
                Some(AdaptationKind::Modeled)
            } else {
                None::<AdaptationKind>
            }),
    {
        let linear = String::from_str("linear");
        let ewma = String::from_str("ewma");
        let modeled = String::from_str("modeled");
        if *name == linear {
            Some(AdaptationKind::Linear)
        } else if *name == ewma {
            Some(AdaptationKind::Ewma)
        } else if *name == modeled {
            Some(AdaptationKind::Modeled)
        } else {
            None
        }
    }
}

/// Cell `j` of a list is passed over while looking for `tag`: it is empty,
/// or a number other than `tag`.
pub open spec fn passed_over(cells: Seq<Seq<char>>, j: int, tag: u64) -> bool {
    cells[j].len() == 0 || (parse_u64(cells[j]).is_some() && parse_u64(cells[j]).unwrap() != tag)
}

/// Whether `tag` is among the comma-separated numbers of `list` (empty
/// entries are skipped). The entries are read in order up to the first one
/// that is `tag`; an entry before it that is no number is an error, and
/// `Err` gives its position.
pub fn tag_listed(list: &str, tag: u64) -> (r: Result<bool, usize>)
    ensures
        match r {
            Ok(true) => exists|i: int| 0 <= i < split(list@, ',').len()
                && split(list@, ',')[i].len() > 0
                && parse_u64(split(list@, ',')[i]) == Some(tag)
                && forall|j: int| 0 <= j < i ==> #[trigger] passed_over(split(list@, ','), j, tag),
            Ok(false) => forall|j: int| 0 <= j < split(list@, ',').len() ==> #[trigger] passed_over(split(list@, ','), j, tag),
            Err(i) => i < split(list@, ',').len()
                && split(list@, ',')[i as int].len() > 0
                && parse_u64(split(list@, ',')[i as int]).is_none()
                && forall|j: int| 0 <= j < i ==> #[trigger] passed_over(split(list@, ','), j, tag),
        },
{
    let cs = crate::csv::chars_of(list);
    let cells = split_chars(&cs, ',');
    let ghost sc = split(list@, ',');
    assert(cells.deep_view() == sc);
    let mut i: usize = 0;
    while i < cells.len()
        invariant
            i <= cells@.len(),
            cells.deep_view() == sc,
            sc == split(list@, ','),
            forall|j: int| 0 <= j < i ==> #[trigger] passed_over(sc, j, tag),
        decreases cells@.len() - i,
    {
        assert(cells@[i as int]@ == sc[i as int]);
        if cells[i].len() > 0 {
            match parse_cell(&cells[i]) {
                None => {
                    return Err(i);
                },
                Some(v) => {
                    if v == tag {
                        return Ok(true);
                    }
                },
            }
        }
        i = i + 1;
    }
    Ok(false)
}

} // verus!
