use apto::hardware::cpus_in_mask;
use apto::{
    AvailablePhysicalCores, AvailablePhysicalThreads, CacheCOS, CoreFrequency, Hyperthreading,
    Tunable, UncoreFrequency,
};

#[test]
fn cache_cos_register_holds_class_in_upper_half() {
    let mut knob = CacheCOS::new(vec![0, 1, 2, 3], 0);
    assert_eq!(knob.name(), "cacheCOS");
    assert_eq!(knob.register_value(), 0x000000000);
    assert!(knob.set(2));
    assert_eq!(knob.register_value(), 0x200000000);
    assert!(knob.set(1));
    assert_eq!(knob.register_value(), 0x100000000);
    assert!(!knob.set(1));
    assert!(knob.set(3));
    assert_eq!(knob.register_value(), 0x300000000);
}

#[test]
fn cache_cos_register_drops_bits_shifted_out() {
    let knob = CacheCOS::new(vec![0x1_0000_0002], 0x1_0000_0002);
    assert_eq!(knob.register_value(), 0x2_0000_0000);
}

#[test]
fn mask_lists_set_cpus_in_order() {
    assert_eq!(cpus_in_mask(&vec![true, false, true, true]), vec![0, 2, 3]);
    assert_eq!(cpus_in_mask(&vec![]), Vec::<usize>::new());
}

#[test]
fn available_threads_take_first_online_cpus() {
    let online = vec![true, false, true, true, true];
    let mut knob = AvailablePhysicalThreads::new(vec![1, 2, 3], 3, &online);
    assert_eq!(knob.name(), "utilizedPhysicalThreads");
    assert_eq!(knob.affinity_cpus(), vec![0, 2, 3]);
    assert!(knob.set(1));
    assert_eq!(knob.affinity_cpus(), vec![0]);
    assert!(knob.set(10));
    assert_eq!(knob.affinity_cpus(), vec![0, 2, 3, 4]);
}

#[test]
fn available_cores_take_first_online_cores() {
    let online = vec![true, true, false, true];
    let mut knob = AvailablePhysicalCores::new(vec![1, 2], 2, &online);
    assert_eq!(knob.name(), "utilizedPhysicalCores");
    assert_eq!(knob.affinity_cores(), vec![0, 1]);
    assert!(!knob.set(2));
    assert!(knob.set(1));
    assert_eq!(knob.affinity_cores(), vec![0]);
}

#[test]
fn core_frequency_in_khz() {
    let online = vec![true, true];
    let mut knob = CoreFrequency::new(vec![1200, 1500, 1600], 1200, &online);
    assert_eq!(knob.name(), "utilizedCoreFrequency");
    assert_eq!(knob.apply_frequency(), Some(1_200_000));
    assert!(knob.set(1600));
    assert_eq!(knob.apply_frequency(), Some(1_600_000));
    assert_eq!(*knob.online_cpus(), vec![0, 1]);
    knob.set(u64::MAX);
    assert_eq!(knob.apply_frequency(), None);
}

#[test]
fn uncore_register_repeats_ratio() {
    let online = vec![true, false, true];
    let package_cores = vec![0, 1, 2, 7];
    let mut knob = UncoreFrequency::new(vec![16, 20, 24], 16, &package_cores, &online);
    assert_eq!(knob.name(), "uncoreFrequency");
    assert_eq!(*knob.socket_cores(), vec![0, 2]);
    assert_eq!(knob.apply_uncore_frequency(), Some(16 * 256 + 16));
    assert!(knob.set(24));
    assert_eq!(knob.apply_uncore_frequency(), Some(24 * 257));
    knob.set(u64::MAX);
    assert_eq!(knob.apply_uncore_frequency(), None);
}

#[test]
fn hyperthreading_switches_siblings() {
    let mut knob = Hyperthreading::new(vec![0, 1], 0, 2, 4);
    assert_eq!(knob.name(), "hyperthreading");
    let mask = vec![true, false, false, false, true, true, false, false];
    assert_eq!(
        knob.apply_hyperthreading_mask(&mask),
        vec![true, false, false, false, false, true, false, false]
    );
    assert!(knob.set(1));
    assert!(knob.set(1));
    assert_eq!(
        knob.apply_hyperthreading_mask(&mask),
        vec![true, false, false, false, true, true, false, false]
    );
    let mask = vec![true, true, false, false, false, false, false, false];
    assert_eq!(
        knob.apply_hyperthreading_mask(&mask),
        vec![true, true, false, false, true, true, false, false]
    );
}
