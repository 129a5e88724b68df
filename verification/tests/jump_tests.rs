use v5sim::jump::{
    u32_le_exec, JumpTable, JumpTableBuilder, SdkCall, JUMP_TABLE_START, REQUIRED_MEMORY_PAGES,
};

#[test]
fn u32_le_bytes() {
    assert_eq!(u32_le_exec(0x12345678), vec![0x78, 0x56, 0x34, 0x12]);
    assert_eq!(u32_le_exec(0), vec![0, 0, 0, 0]);
    assert_eq!(u32_le_exec(5), vec![5, 0, 0, 0]);
}

#[test]
fn builder_tracks_addresses() {
    let mut b = JumpTableBuilder::new();
    assert!(!b.contains_address(0x640));
    b.insert(0x640, SdkCall::ForegroundColor);
    assert!(b.contains_address(0x640));
    assert!(!b.contains_address(0x644));
}

#[test]
fn full_table_contains_every_entry_point() {
    let t = JumpTable::new();
    assert_eq!(t.api.len(), 20);
    assert!(t.api.contains(&(0x640, SdkCall::ForegroundColor)));
    assert!(t.api.contains(&(0x644, SdkCall::BackgroundColor)));
    assert!(t.api.contains(&(0x654, SdkCall::CopyRect)));
    assert!(t.api.contains(&(0x7a0, SdkCall::Render)));
    assert!(t.api.contains(&(0x05c, SdkCall::TasksRun)));
    assert!(t.api.contains(&(0x9d8, SdkCall::CompetitionStatus)));
}

#[test]
fn install_plan_writes_slot_indices_at_sdk_addresses() {
    // a table with the two color entry points, installed at base 7
    let mut b = JumpTableBuilder::new();
    b.insert(0x640, SdkCall::ForegroundColor);
    b.insert(0x644, SdkCall::BackgroundColor);
    let t = JumpTable { api: b.entries };
    let plan = t.expose(7);
    assert_eq!(plan.len(), 2);
    // guest memory at 0x037fc640 / 0x037fc644 receives the slot indices,
    // little-endian, and the two slots are distinct values in {7, 8}
    assert_eq!(plan[0].mem_addr, 0x037f_c640);
    assert_eq!(plan[0].slot, 7);
    assert_eq!(plan[0].bytes, vec![7, 0, 0, 0]);
    assert_eq!(plan[0].call, SdkCall::ForegroundColor);
    assert_eq!(plan[1].mem_addr, 0x037f_c644);
    assert_eq!(plan[1].slot, 8);
    assert_eq!(plan[1].bytes, vec![8, 0, 0, 0]);
    assert_ne!(plan[0].slot, plan[1].slot);
}

#[test]
fn install_plan_covers_the_whole_api() {
    let t = JumpTable::new();
    let n = t.api.len() as u32;
    let plan = t.expose(100);
    assert_eq!(plan.len() as u32, n);
    for (i, w) in plan.iter().enumerate() {
        assert_eq!(w.slot, 100 + i as u32);
        assert!(w.mem_addr >= JUMP_TABLE_START);
    }
}

#[test]
fn required_memory_pages() {
    assert_eq!(REQUIRED_MEMORY_PAGES, 0x700);
    assert_eq!(JUMP_TABLE_START, 0x037f_c000);
}
