use wasm_vm_core::fdt::{build_virt_dtb, dtb_placement, FdtBuilder, Initrd, FDT_BEGIN_NODE, FDT_END, FDT_END_NODE, FDT_MAGIC, FDT_PROP, FDT_VERSION};
use wasm_vm_core::platform::{virt, Platform};

fn be32(b: &[u8], off: usize) -> u32 {
    u32::from_be_bytes([b[off], b[off + 1], b[off + 2], b[off + 3]])
}

fn walk(blob: &[u8]) -> (Vec<String>, Vec<String>) {
    let off_struct = be32(blob, 8) as usize;
    let off_strings = be32(blob, 12) as usize;
    let size_strings = be32(blob, 32) as usize;
    let size_struct = be32(blob, 36) as usize;
    let mut nodes = Vec::new();
    let mut props = Vec::new();
    let mut pos = off_struct;
    let end = off_struct + size_struct;
    let mut depth = 0i32;
    loop {
        assert!(pos % 4 == 0, "token at unaligned offset {pos}");
        assert!(pos < end, "ran past structure block");
        let tok = be32(blob, pos);
        pos += 4;
        match tok {
            FDT_BEGIN_NODE => {
                let start = pos;
                while blob[pos] != 0 {
                    pos += 1;
                }
                nodes.push(String::from_utf8(blob[start..pos].to_vec()).unwrap());
                pos += 1;
                pos = (pos + 3) & !3;
                depth += 1;
            }
            FDT_END_NODE => depth -= 1,
            FDT_PROP => {
                let len = be32(blob, pos) as usize;
                let nameoff = be32(blob, pos + 4) as usize;
                assert!(nameoff < size_strings, "prop nameoff past strings block");
                let name_start = off_strings + nameoff;
                let mut name_end = name_start;
                while blob[name_end] != 0 {
                    name_end += 1;
                }
                props.push(String::from_utf8(blob[name_start..name_end].to_vec()).unwrap());
                pos += 8 + len;
                pos = (pos + 3) & !3;
            }
            FDT_END => {
                assert_eq!(depth, 0, "unbalanced tree");
                assert_eq!(pos, end, "FDT_END not at end of structure block");
                break;
            }
            t => panic!("unknown token {t:#x} at {}", pos - 4),
        }
    }
    (nodes, props)
}

#[test]
fn header_is_spec_valid() {
    let blob = build_virt_dtb(&Platform::default(), "console=ttyS0", None);
    assert_eq!(be32(&blob, 0), FDT_MAGIC);
    assert_eq!(be32(&blob, 4) as usize, blob.len(), "totalsize");
    assert_eq!(be32(&blob, 20), FDT_VERSION);
    assert_eq!(be32(&blob, 24), 16, "last_comp_version");
    assert_eq!(be32(&blob, 28), 0, "boot_cpuid_phys = hart 0");
    let off_rsv = be32(&blob, 16) as usize;
    assert_eq!(&blob[off_rsv..off_rsv + 16], &[0u8; 16]);
}

#[test]
fn tree_has_every_required_node_and_link() {
    let blob = build_virt_dtb(&Platform::default(), "root=/dev/vda", None);
    let (nodes, props) = walk(&blob);
    for required in [
        "memory@80000000",
        "cpus",
        "cpu@0",
        "interrupt-controller",
        "soc",
        "clint@2000000",
        "plic@c000000",
        "serial@10000000",
        "chosen",
        "rtc@101000",
        "test@100000",
    ] {
        assert!(nodes.iter().any(|n| n == required), "missing node {required}");
    }
    for i in 0..virt::VIRTIO_COUNT {
        let name = format!("virtio_mmio@{:x}", Platform::virtio_base(i));
        assert!(nodes.iter().any(|n| n == &name), "missing {name}");
    }
    for required in [
        "timebase-frequency",
        "riscv,ndev",
        "interrupts-extended",
        "interrupt-parent",
        "stdout-path",
        "bootargs",
    ] {
        assert!(props.iter().any(|p| p == required), "missing prop {required}");
    }
}

#[test]
fn dtb_tracks_platform_and_args() {
    let a = build_virt_dtb(&Platform::new(128 * 1024 * 1024), "a", None);
    let b = build_virt_dtb(&Platform::new(256 * 1024 * 1024), "a", None);
    assert_ne!(a, b, "DRAM size must flow into the blob");
    let c = build_virt_dtb(&Platform::default(), "a", Some(Initrd { start: 0x8800_0000, end: 0x8810_0000 }));
    let (_, props) = walk(&c);
    assert!(props.iter().any(|p| p == "linux,initrd-start"));
    let (_, props_no) = walk(&a);
    assert!(!props_no.iter().any(|p| p == "linux,initrd-start"));
}

#[test]
fn placement_top_of_dram_aligned_outside_kernel() {
    let p = Platform::default();
    let blob = build_virt_dtb(&p, "x", None);
    let addr = dtb_placement(&p, blob.len() as u64).unwrap();
    assert_eq!(addr % 8, 0, "8-byte aligned");
    assert!(addr >= virt::DRAM_BASE);
    assert!(addr + blob.len() as u64 <= virt::DRAM_BASE + p.dram_size());
    assert!(addr > virt::DRAM_BASE + p.dram_size() / 2);
    assert_eq!(dtb_placement(&Platform::new(4096), 8192), None);
}

#[test]
fn builder_interns_names_and_pads_tokens() {
    let mut f = FdtBuilder::new();
    f.begin_node("");
    f.prop_u32("x", 7);
    f.prop_u32("x", 8);
    f.prop_str("s", "ab");
    f.end_node();
    let blob = f.finish(&[(0x1000, 0x2000)]);
    let off_struct = be32(&blob, 8) as usize;
    let off_strings = be32(&blob, 12) as usize;
    assert_eq!(off_struct, 40 + 32, "one reservation plus the terminator");
    assert_eq!(&blob[40..48], &0x1000u64.to_be_bytes());
    assert_eq!(&blob[48..56], &0x2000u64.to_be_bytes());
    assert_eq!(&blob[off_strings..], b"x\0s\0", "each name is stored once");
    let (nodes, props) = walk(&blob);
    assert_eq!(nodes, vec![String::new()]);
    assert_eq!(props, vec!["x", "x", "s"]);
    assert_eq!(blob.len(), be32(&blob, 4) as usize);
}
