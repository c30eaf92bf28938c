use crate::knobs::{GenericKnob, Tunable};
use vstd::prelude::*;

verus! {

/// The positions below `n` at which `mask` is set, in increasing order.
pub open spec fn set_positions(mask: Seq<bool>, n: int) -> Seq<usize>
    decreases n,
{
    if n <= 0 {
        Seq::empty()
    } else if mask[n - 1] {
        set_positions(mask, n - 1).push((n - 1) as usize)
    } else {
        set_positions(mask, n - 1)
    }
}

/// The CPUs set in a CPU mask, in increasing order.
pub fn cpus_in_mask(mask: &Vec<bool>) -> (r: Vec<usize>)
    ensures
        r@ == set_positions(mask@, mask@.len() as int),
{
    let mut r: Vec<usize> = Vec::new();
    let mut i: usize = 0;
    while i < mask.len()
        invariant
            i <= mask@.len(),
            r@ == set_positions(mask@, i as int),
        decreases mask@.len() - i,
    {
        if mask[i] {
            r.push(i);
        }
        i = i + 1;
    }
    r
}

/// The first `n` entries of `s`, or all of them where there are fewer.
pub open spec fn first_n<A>(s: Seq<A>, n: int) -> Seq<A> {
    if n < s.len() {
        s.take(n)
    } else {
        s
    }
}

fn take_first(s: &Vec<usize>, n: u64) -> (r: Vec<usize>)
    ensures
        r@ == first_n(s@, n as int),
{
    let mut r: Vec<usize> = Vec::new();
    let mut i: usize = 0;
    while i < s.len() && (i as u64) < n
        invariant
            i <= s@.len(),
            i <= n,
            r@ == s@.take(i as int),
        decreases s@.len() - i,
    {
        r.push(s[i]);
        i = i + 1;
        assert(r@ =~= s@.take(i as int));
    }
    assert(r@ =~= first_n(s@, n as int));
    r
}

pub open spec fn cos_register(cos: u64) -> int {
    (cos as int % 0x1_0000_0000) * 0x1_0000_0000
}

/// Cache class of service of the cores that the process runs on.
pub struct CacheCOS {
    knob: GenericKnob<u64>,
}

impl CacheCOS {
    pub fn new(values: Vec<u64>, initial_value: u64) -> (r: CacheCOS)
        ensures
            r.spec_name() == "cacheCOS"@,
            r.spec_values() == values@,
            r.spec_current() == initial_value,
    {
        let name = String::from_str("cacheCOS");
        CacheCOS { knob: GenericKnob::new(name, values, initial_value) }
    }

    /// The value to write to the class-of-service register of each CPU in
    /// the process's affinity mask: the class in the upper 32 bits.
    pub fn register_value(&self) -> (r: u64)
        ensures
            r as int == cos_register(self.spec_current()),
    {
        let v = self.knob.get();
        let r = v << 32u64;
        assert(r == (v & 0xffff_ffffu64) * 0x1_0000_0000u64) by (bit_vector)
            requires r == v << 32u64;
        assert((v & 0xffff_ffffu64) == v % 0x1_0000_0000u64) by (bit_vector);
        assert((v % 0x1_0000_0000u64) * 0x1_0000_0000u64 < 0x1_0000_0000_0000_0000) by (nonlinear_arith);
        r
    }

    fn apply(&mut self, val: u64) -> (actuate: bool)
        ensures
            final(self).spec_current() == val,
            final(self).spec_name() == old(self).spec_name(),
            final(self).spec_values() == old(self).spec_values(),
            actuate == (old(self).spec_current() != val),
    {
        if self.knob.get() == val {
            return false;
        }
        self.knob.set_current(val);
        true
    }
}

impl Tunable<u64> for CacheCOS {
    closed spec fn spec_name(&self) -> Seq<char> {
        self.knob.spec_name()
    }

    closed spec fn spec_values(&self) -> Seq<u64> {
        self.knob.spec_values()
    }

    closed spec fn spec_current(&self) -> u64 {
        self.knob.spec_current()
    }

    open spec fn accepts(&self, val: u64) -> bool {
        true
    }

    open spec fn needs_actuation(&self, val: u64) -> bool {
        self.spec_current() != val
    }

    fn get(&self) -> (r: u64) {
        self.knob.get()
    }

    fn set(&mut self, val: u64) -> (actuate: bool) {
        self.apply(val)
    }

    fn name(&self) -> (r: String) {
        self.knob.name()
    }

    fn possible_values(&self) -> (r: &Vec<u64>) {
        self.knob.values()
    }
}

/// Number of hardware threads the process may run on: the first ones among
/// the online CPUs.
pub struct AvailablePhysicalThreads {
    knob: GenericKnob<u64>,
    valid_cores: Vec<usize>,
}

impl AvailablePhysicalThreads {
    pub closed spec fn spec_valid_cores(&self) -> Seq<usize> {
        self.valid_cores@
    }

    /// `online[i]` tells whether CPU `i` is online.
    pub fn new(values: Vec<u64>, initial_value: u64, online: &Vec<bool>) -> (r: AvailablePhysicalThreads)
        ensures
            r.spec_name() == "utilizedPhysicalThreads"@,
            r.spec_values() == values@,
            r.spec_current() == initial_value,
            r.spec_valid_cores() == set_positions(online@, online@.len() as int),
    {
        let name = String::from_str("utilizedPhysicalThreads");
        let valid_cores = cpus_in_mask(online);
        AvailablePhysicalThreads { knob: GenericKnob::new(name, values, initial_value), valid_cores }
    }

    /// The CPUs of the affinity mask for the current value.
    pub fn affinity_cpus(&self) -> (r: Vec<usize>)
        ensures
            r@ == first_n(self.spec_valid_cores(), self.spec_current() as int),
    {
        take_first(&self.valid_cores, self.knob.get())
    }

    fn apply(&mut self, val: u64) -> (actuate: bool)
        ensures
            final(self).spec_current() == val,
            final(self).spec_name() == old(self).spec_name(),
            final(self).spec_values() == old(self).spec_values(),
            actuate == (old(self).spec_current() != val),
    {
        if self.knob.get() == val {
            return false;
        }
        self.knob.set_current(val);
        true
    }
}

impl Tunable<u64> for AvailablePhysicalThreads {
    closed spec fn spec_name(&self) -> Seq<char> {
        self.knob.spec_name()
    }

    closed spec fn spec_values(&self) -> Seq<u64> {
        self.knob.spec_values()
    }

    closed spec fn spec_current(&self) -> u64 {
        self.knob.spec_current()
    }

    open spec fn accepts(&self, val: u64) -> bool {
        true
    }

    open spec fn needs_actuation(&self, val: u64) -> bool {
        self.spec_current() != val
    }

    fn get(&self) -> (r: u64) {
        self.knob.get()
    }

    fn set(&mut self, val: u64) -> (actuate: bool) {
        self.apply(val)
    }

    fn name(&self) -> (r: String) {
        self.knob.name()
    }

    fn possible_values(&self) -> (r: &Vec<u64>) {
        self.knob.values()
    }
}

/// Number of physical cores the process may run on; each brings all of its
/// hardware threads into the affinity mask.
pub struct AvailablePhysicalCores {
    knob: GenericKnob<u64>,
    valid_cores: Vec<usize>,
}

impl AvailablePhysicalCores {
    pub closed spec fn spec_valid_cores(&self) -> Seq<usize> {
        self.valid_cores@
    }

    /// `online[i]` tells whether physical core `i` is online.
    pub fn new(values: Vec<u64>, initial_value: u64, online: &Vec<bool>) -> (r: AvailablePhysicalCores)
        ensures
            r.spec_name() == "utilizedPhysicalCores"@,
            r.spec_values() == values@,
            r.spec_current() == initial_value,
            r.spec_valid_cores() == set_positions(online@, online@.len() as int),
    {
        let name = String::from_str("utilizedPhysicalCores");
        let valid_cores = cpus_in_mask(online);
        AvailablePhysicalCores { knob: GenericKnob::new(name, values, initial_value), valid_cores }
    }

    /// The cores whose hardware threads make up the affinity mask for the
    /// current value.
    pub fn affinity_cores(&self) -> (r: Vec<usize>)
        ensures
            r@ == first_n(self.spec_valid_cores(), self.spec_current() as int),
    {
        take_first(&self.valid_cores, self.knob.get())
    }

    fn apply(&mut self, val: u64) -> (actuate: bool)
        ensures
            final(self).spec_current() == val,
            final(self).spec_name() == old(self).spec_name(),
            final(self).spec_values() == old(self).spec_values(),
            actuate == (old(self).spec_current() != val),
    {
        if self.knob.get() == val {
            return false;
        }
        self.knob.set_current(val);
        true
    }
}

impl Tunable<u64> for AvailablePhysicalCores {
    closed spec fn spec_name(&self) -> Seq<char> {
        self.knob.spec_name()
    }

    closed spec fn spec_values(&self) -> Seq<u64> {
        self.knob.spec_values()
    }

    closed spec fn spec_current(&self) -> u64 {
        self.knob.spec_current()
    }

    open spec fn accepts(&self, val: u64) -> bool {
        true
    }

    open spec fn needs_actuation(&self, val: u64) -> bool {
        self.spec_current() != val
    }

    fn get(&self) -> (r: u64) {
        self.knob.get()
    }

    fn set(&mut self, val: u64) -> (actuate: bool) {
        self.apply(val)
    }

    fn name(&self) -> (r: String) {
        self.knob.name()
    }

    fn possible_values(&self) -> (r: &Vec<u64>) {
        self.knob.values()
    }
}

/// Maximum frequency of the online cores, in MHz.
pub struct CoreFrequency {
    knob: GenericKnob<u64>,
    online_cpus: Vec<usize>,
}

impl CoreFrequency {
    pub closed spec fn spec_online_cpus(&self) -> Seq<usize> {
        self.online_cpus@
    }

    /// `online[i]` tells whether CPU `i` is online.
    pub fn new(values: Vec<u64>, initial_value: u64, online: &Vec<bool>) -> (r: CoreFrequency)
        ensures
            r.spec_name() == "utilizedCoreFrequency"@,
            r.spec_values() == values@,
            r.spec_current() == initial_value,
            r.spec_online_cpus() == set_positions(online@, online@.len() as int),
    {
        let name = String::from_str("utilizedCoreFrequency");
        let online_cpus = cpus_in_mask(online);
        CoreFrequency { knob: GenericKnob::new(name, values, initial_value), online_cpus }
    }

    /// The CPUs whose frequency the knob sets.
    pub fn online_cpus(&self) -> (r: &Vec<usize>)
        ensures
            r@ == self.spec_online_cpus(),
    {
        &self.online_cpus
    }

    /// The current value in kHz, as the frequency files take it; `None`
    /// where that does not fit in 64 bits.
    pub fn apply_frequency(&self) -> (r: Option<u64>)
        ensures
            r == (if self.spec_current() * 1000 <= u64::MAX {
                Some((self.spec_current() * 1000) as u64)
            } else {
                None::<u64>
            }),
    {
        self.knob.get().checked_mul(1000)
    }

    fn apply(&mut self, val: u64) -> (actuate: bool)
        ensures
            final(self).spec_current() == val,
            final(self).spec_name() == old(self).spec_name(),
            final(self).spec_values() == old(self).spec_values(),
            actuate == (old(self).spec_current() != val),
    {
        if self.knob.get() == val {
            return false;
        }
        self.knob.set_current(val);
        true
    }
}

impl Tunable<u64> for CoreFrequency {
    closed spec fn spec_name(&self) -> Seq<char> {
        self.knob.spec_name()
    }

    closed spec fn spec_values(&self) -> Seq<u64> {
        self.knob.spec_values()
    }

    closed spec fn spec_current(&self) -> u64 {
        self.knob.spec_current()
    }

    open spec fn accepts(&self, val: u64) -> bool {
        true
    }

    open spec fn needs_actuation(&self, val: u64) -> bool {
        self.spec_current() != val
    }

    fn get(&self) -> (r: u64) {
        self.knob.get()
    }

    fn set(&mut self, val: u64) -> (actuate: bool) {
        self.apply(val)
    }

    fn name(&self) -> (r: String) {
        self.knob.name()
    }

    fn possible_values(&self) -> (r: &Vec<u64>) {
        self.knob.values()
    }
}

pub open spec fn uncore_register(f: u64) -> int {
    (f as int * 256) % 0x1_0000_0000_0000_0000 + f as int
}

/// Frequency ratio of the uncore, the same for its lower and upper bound.
pub struct UncoreFrequency {
    knob: GenericKnob<u64>,
    socket_cores: Vec<usize>,
}

impl UncoreFrequency {
    pub closed spec fn spec_socket_cores(&self) -> Seq<usize> {
        self.socket_cores@
    }

    /// `package_cores` holds one core of each package; `online[i]` tells
    /// whether CPU `i` is online (a core beyond `online` is not).
    pub fn new(values: Vec<u64>, initial_value: u64, package_cores: &Vec<usize>, online: &Vec<bool>) -> (r: UncoreFrequency)
        ensures
            r.spec_name() == "uncoreFrequency"@,
            r.spec_values() == values@,
            r.spec_current() == initial_value,
            r.spec_socket_cores() == package_cores@.filter(|c: usize| c < online@.len() && online@[c as int]),
    {
        let name = String::from_str("uncoreFrequency");
        let mut socket_cores: Vec<usize> = Vec::new();
        let mut i: usize = 0;
        while i < package_cores.len()
            invariant
                i <= package_cores@.len(),
                socket_cores@ == package_cores@.take(i as int).filter(|c: usize| c < online@.len() && online@[c as int]),
            decreases package_cores@.len() - i,
        {
            let c = package_cores[i];
            proof {
                reveal(Seq::filter);
                assert(package_cores@.take(i + 1).drop_last() =~= package_cores@.take(i as int));
            }
            if c < online.len() && online[c] {
                socket_cores.push(c);
            }
            i = i + 1;
        }
        assert(package_cores@.take(i as int) =~= package_cores@);
        UncoreFrequency { knob: GenericKnob::new(name, values, initial_value), socket_cores }
    }

    /// The cores whose uncore register is written.
    pub fn socket_cores(&self) -> (r: &Vec<usize>)
        ensures
            r@ == self.spec_socket_cores(),
    {
        &self.socket_cores
    }

    /// The register value for the current ratio: the ratio in the two low
    /// bytes; `None` where the sum does not fit in 64 bits.
    pub fn apply_uncore_frequency(&self) -> (r: Option<u64>)
        ensures
            r == (if uncore_register(self.spec_current()) <= u64::MAX {
                Some(uncore_register(self.spec_current()) as u64)
            } else {
                None::<u64>
            }),
    {
        let f = self.knob.get();
        let shifted = f << 8u64;
        assert(shifted == f.wrapping_mul(256)) by (bit_vector)
            requires shifted == f << 8u64;
        shifted.checked_add(f)
    }

    fn apply(&mut self, val: u64) -> (actuate: bool)
        ensures
            final(self).spec_current() == val,
            final(self).spec_name() == old(self).spec_name(),
            final(self).spec_values() == old(self).spec_values(),
            actuate == (old(self).spec_current() != val),
    {
        if self.knob.get() == val {
            return false;
        }
        self.knob.set_current(val);
        true
    }
}

impl Tunable<u64> for UncoreFrequency {
    closed spec fn spec_name(&self) -> Seq<char> {
        self.knob.spec_name()
    }

    closed spec fn spec_values(&self) -> Seq<u64> {
        self.knob.spec_values()
    }

    closed spec fn spec_current(&self) -> u64 {
        self.knob.spec_current()
    }

    open spec fn accepts(&self, val: u64) -> bool {
        true
    }

    open spec fn needs_actuation(&self, val: u64) -> bool {
        self.spec_current() != val
    }

    fn get(&self) -> (r: u64) {
        self.knob.get()
    }

    fn set(&mut self, val: u64) -> (actuate: bool) {
        self.apply(val)
    }

    fn name(&self) -> (r: String) {
        self.knob.name()
    }

    fn possible_values(&self) -> (r: &Vec<u64>) {
        self.knob.values()
    }
}

/// Whether the hardware sibling of each physical CPU in the affinity mask
/// is used too (any value but zero) or not.
pub struct Hyperthreading {
    knob: GenericKnob<u64>,
    nr_physical_cpus: usize,
    first_ht_id: usize,
}

/// The mask after switching the siblings of the set physical CPUs on (`on`)
/// or off; CPU `c` has its sibling at `c + first_ht`.
pub open spec fn ht_mask(mask: Seq<bool>, nr_physical: int, first_ht: int, on: bool) -> Seq<bool> {
    Seq::new(mask.len(), |j: int|
        if first_ht <= j && j - first_ht < nr_physical && mask[j - first_ht] {
            on
        } else {
            mask[j]
        })
}

impl Hyperthreading {
    pub closed spec fn spec_nr_physical_cpus(&self) -> nat {
        self.nr_physical_cpus as nat
    }

    pub closed spec fn spec_first_ht_id(&self) -> nat {
        self.first_ht_id as nat
    }

    pub fn new(values: Vec<u64>, initial_value: u64, nr_physical_cpus: usize, first_ht_id: usize) -> (r: Hyperthreading)
        ensures
            r.spec_name() == "hyperthreading"@,
            r.spec_values() == values@,
            r.spec_current() == initial_value,
            r.spec_nr_physical_cpus() == nr_physical_cpus,
            r.spec_first_ht_id() == first_ht_id,
    {
        let name = String::from_str("hyperthreading");
        Hyperthreading { knob: GenericKnob::new(name, values, initial_value), nr_physical_cpus, first_ht_id }
    }

    pub fn nr_physical_cpus(&self) -> (r: usize)
        ensures
            r == self.spec_nr_physical_cpus(),
    {
        self.nr_physical_cpus
    }

    /// The id of CPU 0's hardware sibling.
    pub fn first_ht_id(&self) -> (r: usize)
        ensures
            r == self.spec_first_ht_id(),
    {
        self.first_ht_id
    }

    /// The affinity mask that the current value asks for, from the current
    /// one.
    pub fn apply_hyperthreading_mask(&self, mask: &Vec<bool>) -> (r: Vec<bool>)
        requires
            self.spec_nr_physical_cpus() + self.spec_first_ht_id() <= mask@.len(),
        ensures
            r@ == ht_mask(mask@, self.spec_nr_physical_cpus() as int, self.spec_first_ht_id() as int, self.spec_current() != 0),
    {
        let on = self.knob.get() != 0;
        let mut r = mask.clone();
        let n = mask.len();
        let mut cpu: usize = 0;
        while cpu < self.nr_physical_cpus
            invariant
                n == mask@.len(),
                cpu <= self.nr_physical_cpus,
                self.nr_physical_cpus + self.first_ht_id <= mask@.len(),
                on == (self.spec_current() != 0),
                r@.len() == mask@.len(),
                forall|j: int| 0 <= j < r@.len() ==> #[trigger] r@[j] == (
                    if self.first_ht_id <= j && j - self.first_ht_id < cpu && mask@[j - self.first_ht_id] {
                        on
                    } else {
                        mask@[j]
                    }),
            decreases self.nr_physical_cpus - cpu,
        {
            if mask[cpu] {
                r.set(cpu + self.first_ht_id, on);
            }
            cpu = cpu + 1;
        }
        assert(r@ =~= ht_mask(mask@, self.spec_nr_physical_cpus() as int, self.spec_first_ht_id() as int, on));
        r
    }

    fn apply(&mut self, val: u64) -> (actuate: bool)
        ensures
            final(self).spec_current() == val,
            final(self).spec_name() == old(self).spec_name(),
            final(self).spec_values() == old(self).spec_values(),
            final(self).spec_nr_physical_cpus() == old(self).spec_nr_physical_cpus(),
            final(self).spec_first_ht_id() == old(self).spec_first_ht_id(),
            actuate,
    {
        self.knob.set_current(val);
        true
    }
}

impl Tunable<u64> for Hyperthreading {
    closed spec fn spec_name(&self) -> Seq<char> {
        self.knob.spec_name()
    }

    closed spec fn spec_values(&self) -> Seq<u64> {
        self.knob.spec_values()
    }

    closed spec fn spec_current(&self) -> u64 {
        self.knob.spec_current()
    }

    open spec fn accepts(&self, val: u64) -> bool {
        true
    }

    open spec fn needs_actuation(&self, val: u64) -> bool {
        true
    }

    fn get(&self) -> (r: u64) {
        self.knob.get()
    }

    fn set(&mut self, val: u64) -> (actuate: bool) {
        self.apply(val)
    }

    fn name(&self) -> (r: String) {
        self.knob.name()
    }

    fn possible_values(&self) -> (r: &Vec<u64>) {
        self.knob.values()
    }
}

} // verus!
