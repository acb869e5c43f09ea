use six_degrees::entry::Entry;
use six_degrees::foundation::{
    get_foundation_for, is_supported_configuration, raw_workers, round_down_to_power_of_2,
    system_cores, system_memory, Foundation, FoundationError,
};
use six_degrees::opt::Opt;

/// A foundation with a small memory footprint, as the service's own tests size it.
fn get_test_foundation() -> Foundation {
    get_foundation_for(8589934, 8, 16).unwrap()
}

fn options(memory: Option<u64>, cores: Option<u64>, workers: Option<usize>) -> Opt {
    Opt {
        cache: "$HOME/six_degrees_cache".to_string(),
        cores,
        depth: 2,
        domain_name: "https://en.wikipedia.org/".to_string(),
        memory,
        port: 6360,
        workers,
    }
}

#[test]
fn test_get_worker_count() {
    let foundation = get_test_foundation();
    assert_eq!(foundation.get_worker_count(), 16);
}

#[test]
fn test_get_bitwise_worker_match() {
    let foundation = get_test_foundation();
    assert_eq!(foundation.get_bitwise_worker_match(), 15);
}

#[test]
fn test_get_slabs_per_worker() {
    let foundation = get_test_foundation();
    assert_eq!(foundation.get_slabs_per_worker(), 256);
}

#[test]
fn test_get_bitwise_slab_match() {
    let foundation = get_test_foundation();
    assert_eq!(foundation.get_bitwise_slab_match(), 255);
}

#[test]
fn test_get_spare_count() {
    let foundation = get_test_foundation();
    assert_eq!(foundation.get_spare_count(), 6534);
}

#[test]
fn test_spare_slabs() {
    let foundation = get_test_foundation();
    assert_eq!(foundation.get_spare_slabs().len(), 0);
}

#[test]
fn test_extract_worker_id_from() {
    let foundation = get_test_foundation();
    let digest = Entry::get_digest("Rail transport");
    assert_eq!(foundation.extract_worker_id_from(digest), 11);
}

#[test]
fn test_extract_slab_id_from() {
    let foundation = get_test_foundation();
    let digest = Entry::get_digest("Rail transport");
    assert_eq!(foundation.extract_slab_id_from(digest), 196);
}

#[test]
fn test_round_down() {
    assert_eq!(round_down_to_power_of_2(31), 16);
    assert_eq!(round_down_to_power_of_2(17), 16);
    assert_eq!(round_down_to_power_of_2(16), 16);
}

#[test]
fn round_down_edges() {
    assert_eq!(round_down_to_power_of_2(0), 0);
    assert_eq!(round_down_to_power_of_2(1), 1);
    assert_eq!(round_down_to_power_of_2(2), 2);
    assert_eq!(round_down_to_power_of_2(3), 2);
    assert_eq!(round_down_to_power_of_2(0x7fff_ffff), 0x4000_0000);
}

#[test]
fn too_little_memory_is_refused() {
    assert_eq!(
        get_foundation_for(2097151, 8, 16).err(),
        Some(FoundationError::InsufficientMemory)
    );
    assert_eq!(get_foundation_for(0, 8, 0).err(), Some(FoundationError::InsufficientMemory));
}

#[test]
fn least_memory_is_sized() {
    // 2 GB less 1 GB of working memory, 1 MB of handles and 2 KB of messages: 1022 slabs.
    let foundation = get_foundation_for(2097152, 1, 3).unwrap();
    assert_eq!(foundation.get_worker_count(), 2);
    assert_eq!(foundation.get_bitwise_worker_match(), 1);
    assert_eq!(foundation.get_slabs_per_worker(), 256);
    assert_eq!(foundation.get_bitwise_slab_match(), 255);
    assert_eq!(foundation.get_spare_count(), 2 * (1022 - 512));
    assert_eq!(foundation.get_spare_slab(), None);
}

#[test]
fn slab_count_is_capped() {
    // Far more memory than 65535 slabs: the slabs stop at 65535.
    let foundation = get_foundation_for(1 << 40, 8, 1).unwrap();
    assert_eq!(foundation.get_worker_count(), 1);
    assert_eq!(foundation.get_slabs_per_worker(), 32768);
    assert_eq!(foundation.get_spare_count(), 2 * (65535 - 32768));
}

#[test]
fn supported_configurations() {
    assert!(is_supported_configuration(8589934, 16));
    assert!(!is_supported_configuration(8589934, 0));
    assert!(!is_supported_configuration(8589934, 0x8000_0000));
    // More workers than slabs.
    assert!(!is_supported_configuration(2097152, 2048));
    // More memory than a 32-bit slab count can hold before capping.
    assert!(!is_supported_configuration(u64::MAX, 16));
}

#[test]
fn worker_ids_stay_below_worker_count() {
    let foundation = get_test_foundation();
    for title in ["Rail transport", "Railways", "Value network", "", "Zebra"] {
        let digest = Entry::get_digest(title);
        let worker = foundation.extract_worker_id_from(digest);
        let key = digest[1] as u32 * 256 + digest[0] as u32;
        assert!((worker as u32) < foundation.get_worker_count());
        assert_eq!(worker as u32, key % foundation.get_worker_count());
        let slab = foundation.extract_slab_id_from(digest);
        let slab_key = digest[3] as u32 * 256 + digest[2] as u32;
        assert!((slab as u32) < foundation.get_slabs_per_worker());
        assert_eq!(slab as u32, slab_key % foundation.get_slabs_per_worker());
    }
}

#[test]
fn options_override_the_machine() {
    let given = options(Some(4194304), Some(3), Some(5));
    assert_eq!(system_memory(&given, 100), 4194304);
    assert_eq!(system_cores(&given, Some(64)), 3);
    assert_eq!(raw_workers(&given, Some(64)), 5);
    let machine = options(None, None, None);
    assert_eq!(system_memory(&machine, 100), 100);
    assert_eq!(system_cores(&machine, Some(64)), 64);
    assert_eq!(raw_workers(&machine, Some(64)), 128);
    assert_eq!(raw_workers(&machine, Some(40000)), 65535);
}

#[test]
fn foundation_from_machine() {
    let machine = options(None, None, None);
    let foundation = Foundation::new(&machine, 8589934, Some(4)).unwrap();
    assert_eq!(foundation.get_worker_count(), 8);
    assert_eq!(foundation.get_slabs_per_worker(), 512);
    let small = options(Some(1024), None, None);
    assert_eq!(
        Foundation::new(&small, 8589934, Some(4)).err(),
        Some(FoundationError::InsufficientMemory)
    );
}

#[test]
fn digest_is_md5_of_title() {
    assert_eq!(
        Entry::get_digest("Value network"),
        [165, 46, 141, 56, 102, 47, 14, 148, 186, 90, 70, 92, 181, 12, 96, 46]
    );
}
