use wasm_vm_core::platform::{virt, Platform, PlatformError, Region};

#[test]
fn default_platform_is_valid() {
    let p = Platform::default();
    assert!(Platform::try_new(p.dram_size()).is_ok());
    let r = p.regions();
    for i in 0..r.len() {
        for j in (i + 1)..r.len() {
            assert!(!r[i].overlaps(&r[j]), "{:?} overlaps {:?}", r[i], r[j]);
        }
    }
}

#[test]
fn region_boundaries() {
    let p = Platform::new(128 * 1024 * 1024);
    for r in p.regions() {
        let end = r.end().expect("no region overflows in the default map");
        assert!(r.contains(r.base), "{}: first byte", r.name);
        assert!(r.contains(end - 1), "{}: last byte", r.name);
        assert!(!r.contains(end), "{}: one past end must be outside", r.name);
        if r.base > 0 {
            assert!(!r.contains(r.base - 1), "{}: one before base", r.name);
        }
    }
}

#[test]
fn overlap_and_overflow_are_caught() {
    let a = Region { name: "a", base: 0x1000, len: 0x1000 };
    let b = Region { name: "b", base: 0x1800, len: 0x1000 };
    assert!(a.overlaps(&b) && b.overlaps(&a));
    let c = Region { name: "c", base: 0x2000, len: 0x1000 };
    assert!(!a.overlaps(&c), "adjacent (touching) is not overlap");

    assert_eq!(Platform::try_new(0), Err(PlatformError::DramSize(0)));
    let huge = u64::MAX - virt::DRAM_BASE + 1;
    assert_eq!(Platform::try_new(huge), Err(PlatformError::DramSize(huge)));
}

#[test]
fn irq_and_virtio_layout() {
    assert_eq!(virt::UART0_IRQ, 10);
    assert_eq!(virt::RTC_IRQ, 11);
    for i in 0..virt::VIRTIO_COUNT {
        assert_eq!(Platform::virtio_irq(i), 1 + i as u32);
        assert_eq!(Platform::virtio_base(i), 0x1000_1000 + i * 0x1000);
    }
    assert_eq!(Platform::virtio_irq(7), 8);
    assert_eq!(Platform::virtio_base(7), 0x1000_8000);
    assert!(virt::UART0_IRQ > virt::VIRTIO_IRQ_BASE + (virt::VIRTIO_COUNT as u32 - 1));
    assert!(virt::PLIC_NDEV >= virt::RTC_IRQ);
}

#[test]
fn dram_region_tracks_the_size() {
    let p = Platform::new(4096);
    let d = p.dram();
    assert_eq!((d.base, d.len), (virt::DRAM_BASE, 4096));
    assert_eq!(p.regions().len(), 14);
    assert_eq!(d.end(), Some(virt::DRAM_BASE + 4096));
}
