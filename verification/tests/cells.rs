use hvcore::cell::{
    add_cell, find_cell_by_id, init, remove_cell, root_cell, Cell, CellRegistry, CommPage,
    GENERIC_MMIO_BASE,
};
use hvcore::config::{
    ArchPlatformInfo, CellConfig, HvConsole, HvIrqChip, HvMemRange, HvMemoryRegion, HvSystemConfig,
    PlatformInfo,
};
use hvcore::err::HvError;
use hvcore::gic::{GicState, GICD_SIZE};
use hvcore::memory::{MemoryRegion, MemorySet, MEM_READ, MEM_WRITE};
use hvcore::mmio::MMIOHandler;
use hvcore::percpu::{PerCpu, PerCpuList};

const GICD_BASE: u64 = 0x0800_0000;
const GICR0_BASE: u64 = 0x080a_0000;
const RAM_START: u64 = 0x4008_0000;
const RAM_SIZE: u64 = 0x20_0000; // 2 MiB

fn console() -> HvConsole {
    HvConsole { address: 0, size: 0, flags: 0 }
}

fn root_config(pin_bitmap: [u32; 4]) -> CellConfig {
    CellConfig {
        id: 0,
        cpu_set: 0b1111,
        total_size: 4096,
        mem_regions: vec![HvMemoryRegion {
            virt_start: RAM_START,
            phys_start: RAM_START,
            size: RAM_SIZE,
            flags: MEM_READ | MEM_WRITE,
        }],
        irq_chips: vec![HvIrqChip { address: GICD_BASE, pin_base: 32, pin_bitmap }],
        console: console(),
    }
}

fn system_config() -> HvSystemConfig {
    HvSystemConfig {
        root_cell: root_config([0xffff_ffff; 4]),
        platform_info: PlatformInfo {
            pci_mmconfig_base: 0x40_1000_0000,
            pci_mmconfig_end_bus: 0xff,
            arch: ArchPlatformInfo { gicd_base: GICD_BASE },
        },
        hypervisor_memory: HvMemRange { phys_start: 0x7fc0_0000, size: 0x40_0000 },
    }
}

fn cpu_list() -> PerCpuList {
    let mut cpus = Vec::new();
    for i in 0..4u64 {
        cpus.push(PerCpu {
            id: i,
            mpidr: i,
            gicr_base: GICR0_BASE + i * 0x2_0000,
            wait_for_poweron: false,
        });
    }
    PerCpuList { cpus }
}

fn pin42_config() -> CellConfig {
    CellConfig {
        id: 7,
        cpu_set: 0b0100,
        total_size: 4096,
        mem_regions: vec![],
        irq_chips: vec![HvIrqChip {
            address: GICD_BASE,
            pin_base: 32,
            pin_bitmap: [1 << 10, 0, 0, 0], // pin 42 = word 1, bit 10
        }],
        console: console(),
    }
}

#[test]
fn root_cell_maps_declared_ram() {
    let sys = system_config();
    let cpus = cpu_list();
    let mut registry = CellRegistry::new();
    let mut gic = GicState::new();
    init(&mut registry, &sys, &cpus, &mut gic).unwrap();
    let root = root_cell(&registry);
    assert_eq!(root.id(), 0);
    assert!(root.owns_cpu(0) && root.owns_cpu(3) && !root.owns_cpu(4));
    // Any address inside the 2 MiB RAM region translates to itself.
    assert_eq!(root.gpm_query(RAM_START + 0x1234), Some(RAM_START + 0x1234));
    assert_eq!(root.gpm_query(RAM_START + RAM_SIZE - 1), Some(RAM_START + RAM_SIZE - 1));
    // The hypervisor image is backed too.
    assert_eq!(root.gpm_query(0x7fc0_0000), Some(0x7fc0_0000));
    // An unmapped address is an explicit miss.
    assert_eq!(root.gpm_query(0x1000), None);
}

#[test]
fn root_cell_registers_gic_handlers() {
    let sys = system_config();
    let cpus = cpu_list();
    let mut registry = CellRegistry::new();
    let mut gic = GicState::new();
    init(&mut registry, &sys, &cpus, &mut gic).unwrap();
    let root = root_cell(&registry);
    let hit = root.find_mmio_region(GICD_BASE + 0x100, 4).unwrap();
    assert_eq!(hit.0.start, GICD_BASE);
    assert_eq!(hit.0.size, GICD_SIZE);
    assert!(matches!(hit.1, MMIOHandler::Gicv3Gicd));
    // One redistributor window per CPU that declares one.
    let hit = root.find_mmio_region(GICR0_BASE + 3 * 0x2_0000, 8).unwrap();
    assert!(matches!(hit.1, MMIOHandler::Gicv3Gicr));
    assert_eq!(hit.2, 3);
    // Four redistributors found: the recorded last index is 3.
    assert_eq!(gic.last_gicr, Some(3));
    // A miss is an explicit None.
    assert!(root.find_mmio_region(0xdead_0000, 4).is_none());
}

#[test]
fn new_cell_takes_pin_42_from_root() {
    let sys = system_config();
    let cpus = cpu_list();
    let mut registry = CellRegistry::new();
    let mut gic = GicState::new();
    init(&mut registry, &sys, &cpus, &mut gic).unwrap();
    assert!(root_cell(&registry).irq_in_cell(42));

    let cell = Cell::new(pin42_config(), &sys, &cpus, &mut registry, &mut gic, false).unwrap();
    assert!(cell.irq_in_cell(42));
    assert!(!cell.irq_in_cell(43));
    assert!(!root_cell(&registry).irq_in_cell(42));
    assert!(root_cell(&registry).irq_in_cell(43));
}

#[test]
fn teardown_returns_pin_42_to_root() {
    let sys = system_config();
    let cpus = cpu_list();
    let mut registry = CellRegistry::new();
    let mut gic = GicState::new();
    init(&mut registry, &sys, &cpus, &mut gic).unwrap();
    let cell = Cell::new(pin42_config(), &sys, &cpus, &mut registry, &mut gic, false).unwrap();
    assert!(!root_cell(&registry).irq_in_cell(42));

    let root = registry.root.as_mut().unwrap();
    cell.gicv3_exit(root, &mut gic, &sys);
    assert!(root.irq_in_cell(42));
    // A pin the root never declared does not appear.
    assert!(!root.irq_in_cell(4)); // word 0 is never part of a declaration
}

#[test]
fn teardown_masks_and_deactivates_owned_interrupts() {
    let sys = system_config();
    let cpus = cpu_list();
    let mut registry = CellRegistry::new();
    let mut gic = GicState::new();
    init(&mut registry, &sys, &cpus, &mut gic).unwrap();
    let cell = Cell::new(pin42_config(), &sys, &cpus, &mut registry, &mut gic, false).unwrap();

    // Pretend the hardware has interrupt 42 enabled and active.
    gic.enabled[1] = 1 << 10 | 1 << 11;
    gic.active[1] = 1 << 10;
    let root = registry.root.as_mut().unwrap();
    cell.gicv3_exit(root, &mut gic, &sys);
    assert_eq!(gic.enabled[1], 1 << 11); // bit 10 cleared, others kept
    assert_eq!(gic.active[1], 0);
}

#[test]
fn config_commit_retargets_foreign_routes() {
    let sys = system_config();
    let cpus = cpu_list();
    let mut registry = CellRegistry::new();
    let mut gic = GicState::new();
    init(&mut registry, &sys, &cpus, &mut gic).unwrap();
    let cell = Cell::new(pin42_config(), &sys, &cpus, &mut registry, &mut gic, false).unwrap();

    // Interrupt 42 (owned by the new cell, CPU set {2}) currently routes to
    // CPU 0; interrupt 43 (root's) already routes to a root CPU.
    gic.write_irouter(42, 0);
    gic.write_irouter(43, 1);
    let root = registry.root.as_ref().unwrap();
    cell.gicv3_config_commit(root, &mut gic, &cpus);
    assert_eq!(gic.read_irouter(42), 2); // rewritten to the cell's first CPU
    assert_eq!(gic.read_irouter(43), 1); // kept: already inside the root set
}

#[test]
fn oversized_config_is_rejected() {
    let sys = system_config();
    let cpus = cpu_list();
    let mut registry = CellRegistry::new();
    let mut gic = GicState::new();
    init(&mut registry, &sys, &cpus, &mut gic).unwrap();
    let mut cfg = pin42_config();
    cfg.total_size = 4097;
    let err = Cell::new(cfg, &sys, &cpus, &mut registry, &mut gic, false).unwrap_err();
    assert_eq!(err, HvError::InvalidConfig);
}

#[test]
fn colliding_handler_window_is_rejected() {
    let mut sys = system_config();
    let cpus = {
        let mut cpus = cpu_list();
        // CPU 0's redistributor collides with the distributor window start.
        cpus.cpus[0].gicr_base = GICD_BASE;
        cpus
    };
    sys.root_cell.cpu_set = 0b1111;
    let mut registry = CellRegistry::new();
    let mut gic = GicState::new();
    let err = init(&mut registry, &sys, &cpus, &mut gic).unwrap_err();
    assert_eq!(err, HvError::DuplicateMmio);
}

#[test]
fn missing_redistributors_are_rejected() {
    let sys = system_config();
    let mut cpus = cpu_list();
    for c in cpus.cpus.iter_mut() {
        c.gicr_base = 0;
    }
    let mut registry = CellRegistry::new();
    let mut gic = GicState::new();
    let err = init(&mut registry, &sys, &cpus, &mut gic).unwrap_err();
    assert_eq!(err, HvError::NoRedistributor);
}

#[test]
fn second_init_is_a_logic_error() {
    let sys = system_config();
    let cpus = cpu_list();
    let mut registry = CellRegistry::new();
    let mut gic = GicState::new();
    init(&mut registry, &sys, &cpus, &mut gic).unwrap();
    let err = init(&mut registry, &sys, &cpus, &mut gic).unwrap_err();
    assert_eq!(err, HvError::AlreadyInitialized);
}

#[test]
fn overlapping_region_is_rejected() {
    let mut set = MemorySet::new();
    let a = MemoryRegion::new_with_offset_mapper(0x1000, 0x9000, 0x2000, MEM_READ);
    let b = MemoryRegion::new_with_offset_mapper(0x2000, 0x20000, 0x2000, MEM_READ);
    set.insert(a).unwrap();
    assert_eq!(set.insert(b), Err(HvError::Overlap));
    // The failed insert changed nothing.
    assert_eq!(set.page_table_query(0x3fff), None);
}

#[test]
fn insert_then_unmap_restores_translation() {
    let mut set = MemorySet::new();
    let a = MemoryRegion::new_with_offset_mapper(0x1000, 0x9000, 0x1000, MEM_READ);
    let b = MemoryRegion::new_with_offset_mapper(0x4000, 0x80000, 0x3000, MEM_READ);
    set.insert(a).unwrap();
    assert_eq!(set.page_table_query(0x4500), None);
    set.insert(b).unwrap();
    assert_eq!(set.page_table_query(0x4500), Some(0x80500));
    set.unmap_partial(&b).unwrap();
    // Back to the pre-insertion translation state.
    assert_eq!(set.page_table_query(0x4500), None);
    assert_eq!(set.page_table_query(0x1800), Some(0x9800));
}

#[test]
fn unmapping_an_unmapped_region_is_not_found() {
    let mut set = MemorySet::new();
    let a = MemoryRegion::new_with_offset_mapper(0x1000, 0x9000, 0x1000, MEM_READ);
    assert_eq!(set.unmap_partial(&a), Err(HvError::NotFound));
}

#[test]
fn subpage_region_becomes_mmio_trap() {
    let sys = system_config();
    let cpus = cpu_list();
    let mut registry = CellRegistry::new();
    let mut gic = GicState::new();
    let mut cell =
        Cell::new(pin42_config(), &sys, &cpus, &mut registry, &mut gic, true).unwrap();
    // 0x80 bytes is not a whole page: trapped instead of mapped.
    let sub = MemoryRegion::new_with_offset_mapper(0x9000_0000, 0x9100_0000, 0x80, MEM_READ);
    cell.mem_region_insert(sub).unwrap();
    assert_eq!(cell.gpm_query(0x9000_0000), None);
    let hit = cell.find_mmio_region(0x9000_0010, 4).unwrap();
    assert_eq!(hit.0.start, 0x9000_0000);
    assert!(matches!(hit.1, MMIOHandler::Subpage));
    assert_eq!(hit.2, 0x9100_0000); // the backing physical start
    // Unmapping it unregisters the trap.
    cell.mem_region_unmap_partial(&sub).unwrap();
    assert!(cell.find_mmio_region(0x9000_0010, 4).is_none());
}

#[test]
fn duplicate_mmio_start_is_rejected() {
    let sys = system_config();
    let cpus = cpu_list();
    let mut registry = CellRegistry::new();
    let mut gic = GicState::new();
    let mut cell =
        Cell::new(pin42_config(), &sys, &cpus, &mut registry, &mut gic, true).unwrap();
    assert_eq!(
        cell.mmio_region_register(GENERIC_MMIO_BASE, 0x10, MMIOHandler::Generic, 0),
        Err(HvError::DuplicateMmio)
    );
}

#[test]
fn registry_lookup_and_removal() {
    let sys = system_config();
    let cpus = cpu_list();
    let mut registry = CellRegistry::new();
    let mut gic = GicState::new();
    init(&mut registry, &sys, &cpus, &mut gic).unwrap();
    let cell = Cell::new(pin42_config(), &sys, &cpus, &mut registry, &mut gic, false).unwrap();
    add_cell(&mut registry, cell);

    assert_eq!(find_cell_by_id(&registry, 7).unwrap().id(), 7);
    assert_eq!(find_cell_by_id(&registry, 0).unwrap().id(), 0);
    assert!(find_cell_by_id(&registry, 99).is_none());

    assert_eq!(remove_cell(&mut registry, 99), Err(HvError::NotFound));
    remove_cell(&mut registry, 7).unwrap();
    assert!(find_cell_by_id(&registry, 7).is_none());
}

#[test]
fn suspend_signals_every_other_owned_cpu() {
    let sys = system_config();
    let cpus = cpu_list();
    let mut registry = CellRegistry::new();
    let mut gic = GicState::new();
    init(&mut registry, &sys, &cpus, &mut gic).unwrap();
    let root = root_cell(&registry);
    assert_eq!(root.suspend(1), vec![0, 2, 3]);
    assert_eq!(root.resume(1), vec![0, 2, 3]);
    assert_eq!(root.suspend(9), vec![0, 1, 2, 3]);
}

#[test]
fn comm_page_zeroes() {
    let mut page = CommPage::new();
    assert_eq!(page.comm_region.signature, [0u8; 6]);
    page.comm_region.cell_state = 5;
    page.fill_zero();
    assert_eq!(page.comm_region.cell_state, 0);
}

#[test]
fn each_interrupt_has_at_most_one_owner() {
    let sys = system_config();
    let cpus = cpu_list();
    let mut registry = CellRegistry::new();
    let mut gic = GicState::new();
    init(&mut registry, &sys, &cpus, &mut gic).unwrap();
    let cell = Cell::new(pin42_config(), &sys, &cpus, &mut registry, &mut gic, false).unwrap();
    let root = root_cell(&registry);
    for irq in 0..1024u32 {
        assert!(
            !(root.irq_in_cell(irq) && cell.irq_in_cell(irq)),
            "interrupt {irq} owned twice"
        );
    }
}

#[test]
fn teardown_restores_the_whole_root_bitmap() {
    let sys = system_config();
    let cpus = cpu_list();
    let mut registry = CellRegistry::new();
    let mut gic = GicState::new();
    init(&mut registry, &sys, &cpus, &mut gic).unwrap();
    let before: Vec<bool> = (0..1024u32)
        .map(|irq| root_cell(&registry).irq_in_cell(irq))
        .collect();
    let cell = Cell::new(pin42_config(), &sys, &cpus, &mut registry, &mut gic, false).unwrap();
    assert!(!root_cell(&registry).irq_in_cell(42));
    let root = registry.root.as_mut().unwrap();
    cell.gicv3_exit(root, &mut gic, &sys);
    let after: Vec<bool> = (0..1024u32).map(|irq| root.irq_in_cell(irq)).collect();
    assert_eq!(before, after);
}
