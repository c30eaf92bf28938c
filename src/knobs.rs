use vstd::prelude::*;

verus! {

/// The state every knob shares: its name, the values it may take and the
/// value it is currently set to.
pub struct GenericKnob<T: Copy> {
    name: String,
    permitted_values: Vec<T>,
    current_value: T,
}

impl<T: Copy> GenericKnob<T> {
    pub closed spec fn spec_name(&self) -> Seq<char> {
        self.name@
    }

    pub closed spec fn spec_values(&self) -> Seq<T> {
        self.permitted_values@
    }

    pub closed spec fn spec_current(&self) -> T {
        self.current_value
    }

    pub fn new(name: String, permitted_values: Vec<T>, current_value: T) -> (r: GenericKnob<T>)
        ensures
            r.spec_name() == name@,
            r.spec_values() == permitted_values@,
            r.spec_current() == current_value,
    {
        GenericKnob { name, permitted_values, current_value }
    }

    pub(crate) fn get(&self) -> (r: T)
        ensures
            r == self.spec_current(),
    {
        self.current_value
    }

    pub(crate) fn set_current(&mut self, val: T)
        ensures
            final(self).spec_current() == val,
            final(self).spec_name() == old(self).spec_name(),
            final(self).spec_values() == old(self).spec_values(),
    {
        self.current_value = val;
    }

    pub(crate) fn name(&self) -> (r: String)
        ensures
            r@ == self.spec_name(),
    {
        self.name.clone()
    }

    pub(crate) fn values(&self) -> (r: &Vec<T>)
        ensures
            r@ == self.spec_values(),
    {
        &self.permitted_values
    }
}

/// A knob that the controller can read and set.
///
/// `set` changes the recorded value; its result says whether the caller has
/// to actuate the knob (write the register, change the affinity mask, call
/// the application's hook) for the new value to take effect.
pub trait Tunable<T: Copy> {
    spec fn spec_name(&self) -> Seq<char>;

    spec fn spec_values(&self) -> Seq<T>;

    spec fn spec_current(&self) -> T;

    /// Whether `set` may be called with `val`.
    spec fn accepts(&self, val: T) -> bool;

    /// Whether setting `val` from the current state needs an actuation.
    spec fn needs_actuation(&self, val: T) -> bool;

    fn get(&self) -> (r: T)
        ensures
            r == self.spec_current(),
    ;

    fn set(&mut self, val: T) -> (actuate: bool)
        requires
            old(self).accepts(val),
        ensures
            final(self).spec_current() == val,
            final(self).spec_name() == old(self).spec_name(),
            final(self).spec_values() == old(self).spec_values(),
            actuate == old(self).needs_actuation(val),
    ;

    fn name(&self) -> (r: String)
        ensures
            r@ == self.spec_name(),
    ;

    fn possible_values(&self) -> (r: &Vec<T>)
        ensures
            r@ == self.spec_values(),
    ;
}

/// A knob whose effect is a hook of the application: every `set` asks for
/// the hook to run, and any value is accepted.
pub struct ApplicationKnob<T: Copy> {
    knob: GenericKnob<T>,
}

impl<T: Copy> ApplicationKnob<T> {
    pub fn new(name: String, values: Vec<T>, initial_value: T) -> (r: ApplicationKnob<T>)
        ensures
            r.spec_name() == name@,
            r.spec_values() == values@,
            r.spec_current() == initial_value,
    {
        ApplicationKnob { knob: GenericKnob::new(name, values, initial_value) }
    }

    pub fn possible_values(&self) -> (r: &Vec<T>)
        ensures
            r@ == self.spec_values(),
    {
        self.knob.values()
    }

    /// Records `val` as the current value; the application's hook is to be
    /// run with the previous and the new value.
    pub fn apply(&mut self, val: T)
        ensures
            final(self).spec_current() == val,
            final(self).spec_name() == old(self).spec_name(),
            final(self).spec_values() == old(self).spec_values(),
    {
        self.knob.set_current(val);
    }
}

impl<T: Copy> Tunable<T> for ApplicationKnob<T> {
    closed spec fn spec_name(&self) -> Seq<char> {
        self.knob.spec_name()
    }

    closed spec fn spec_values(&self) -> Seq<T> {
        self.knob.spec_values()
    }

    closed spec fn spec_current(&self) -> T {
        self.knob.spec_current()
    }

    open spec fn accepts(&self, val: T) -> bool {
        true
    }

    open spec fn needs_actuation(&self, val: T) -> bool {
        true
    }

    fn get(&self) -> (r: T) {
        self.knob.get()
    }

    fn set(&mut self, val: T) -> (actuate: bool) {
        self.apply(val);
        true
    }

    fn name(&self) -> (r: String) {
        self.knob.name()
    }

    fn possible_values(&self) -> (r: &Vec<T>) {
        self.knob.values()
    }
}

/// A knob fixed to one value: its only permitted value is the one it was
/// made with, and setting it to that value changes nothing.
pub struct ConstantKnob<T: Copy> {
    knob: GenericKnob<T>,
}

impl<T: Copy> ConstantKnob<T> {
    pub fn new(name: String, value: T) -> (r: ConstantKnob<T>)
        ensures
            r.spec_name() == name@,
            r.spec_values() == seq![value],
            r.spec_current() == value,
    {
        let knob = GenericKnob::new(name, vec![value], value);
        ConstantKnob { knob }
    }
}

impl<T: Copy> Tunable<T> for ConstantKnob<T> {
    closed spec fn spec_name(&self) -> Seq<char> {
        self.knob.spec_name()
    }

    closed spec fn spec_values(&self) -> Seq<T> {
        self.knob.spec_values()
    }

    closed spec fn spec_current(&self) -> T {
        self.knob.spec_current()
    }

    open spec fn accepts(&self, val: T) -> bool {
        val == self.spec_current()
    }

    open spec fn needs_actuation(&self, val: T) -> bool {
        false
    }

    fn get(&self) -> (r: T) {
        self.knob.get()
    }

    fn set(&mut self, val: T) -> (actuate: bool) {
        false
    }

    fn name(&self) -> (r: String) {
        self.knob.name()
    }

    fn possible_values(&self) -> (r: &Vec<T>) {
        self.knob.values()
    }
}

} // verus!
