use vstd::prelude::*;

verus! {

/// The record of past scheduling windows, oldest first.
pub struct LogState<L> {
    logs: Vec<L>,
}

impl<L> LogState<L> {
    pub closed spec fn spec_logs(&self) -> Seq<L> {
        self.logs@
    }

    pub fn new() -> (r: LogState<L>)
        ensures
            r.spec_logs() == Seq::<L>::empty(),
    {
        LogState { logs: Vec::new() }
    }

    /// Appends the record of one more window.
    pub fn log(&mut self, entry: L)
        ensures
            final(self).spec_logs() == old(self).spec_logs().push(entry),
    {
        self.logs.push(entry);
    }

    pub fn len(&self) -> (r: usize)
        ensures
            r == self.spec_logs().len(),
    {
        self.logs.len()
    }

    /// The records, oldest first.
    pub fn entries(&self) -> (r: &Vec<L>)
        ensures
            r@ == self.spec_logs(),
    {
        &self.logs
    }

    /// The latest record, if any.
    pub fn last(&self) -> (r: Option<&L>)
        ensures
            match r {
                Some(x) => self.spec_logs().len() > 0 && *x == self.spec_logs().last(),
                None => self.spec_logs().len() == 0,
            },
    {
        let n = self.logs.len();
        if n == 0 {
            None
        } else {
            Some(&self.logs[n - 1])
        }
    }

    /// The record before the latest one; none until two windows have been
    /// recorded.
    pub fn second_last(&self) -> (r: Option<&L>)
        ensures
            match r {
                Some(x) => self.spec_logs().len() >= 2 && *x == self.spec_logs()[self.spec_logs().len() - 2],
                None => self.spec_logs().len() < 2,
            },
    {
        let n = self.logs.len();
        if n < 2 {
            None
        } else {
            Some(&self.logs[n - 2])
        }
    }
}

/// How a signal's window of values is reduced to one value.
#[derive(Clone, Copy, Debug, PartialEq, Eq, Structural)]
pub enum Aggregation {
    /// The mean of the window's values.
    Mean,
    /// The window's last value.
    Last,
    /// The window's last value divided by the window size.
    LastPerWindow,
}

impl Aggregation {
    /// The aggregation of the measure named `name`; the `id` column is no
    /// measure.
    pub fn for_measure(name: &String) -> (r: Option<Aggregation>)
        ensures
            r == (if name@ == "id"@ {
                None::<Aggregation>
            } else if name@ == "powerConsumption"@ || name@ == "harmonicMean"@ || name@ == "geometricMean"@
                || name@ == "harmonicMeanABS"@ {
                Some(Aggregation::Last)
            } else if name@ == "energyDelta"@ {
                Some(Aggregation::LastPerWindow)
            } else {
                Some(Aggregation::Mean)
            }),
    {
        let id = String::from_str("id");
        let power = String::from_str("powerConsumption");
        let harmonic = String::from_str("harmonicMean");
        let geometric = String::from_str("geometricMean");
        let harmonic_abs = String::from_str("harmonicMeanABS");
        let energy_delta = String::from_str("energyDelta");
        if *name == id {
            None
        } else if *name == power || *name == harmonic || *name == geometric || *name == harmonic_abs {
            Some(Aggregation::Last)
        } else if *name == energy_delta {
            Some(Aggregation::LastPerWindow)
        } else {
            Some(Aggregation::Mean)
        }
    }
}

} // verus!
