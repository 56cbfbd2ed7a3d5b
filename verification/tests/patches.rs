use freewheeling::browser::BrowserItemType;
use freewheeling::browser_types::{PatchBank, PatchBrowser, PatchItem};

fn bank(tag: i32, names: &[&str]) -> PatchBank {
    let mut b = PatchBank::new(0, tag, false);
    for (i, n) in names.iter().enumerate() {
        b.add(PatchItem::new(i as i32, tag, i as i32, 0, n));
    }
    b
}

fn shown(p: &PatchBrowser) -> Vec<String> {
    p.browser.items.iter().map(|i| i.name.clone()).collect()
}

#[test]
fn patch_zones_grow_unset_and_shrink() {
    let mut p = PatchItem::new(7, 1, 2, 3, "Piano");
    assert!(!p.is_combi());
    assert_eq!(p.item.item_type, BrowserItemType::Patch);
    assert_eq!(f32::from_bits(p.bypass_time2_bits), 10.0);
    p.setup_zones(2);
    assert!(p.is_combi());
    let z = p.zone(1).unwrap();
    assert_eq!((z.bank, z.program, z.bypass_channel), (-1, -1, -1));
    assert_eq!(f32::from_bits(z.bypass_time1_bits), 0.0);
    assert_eq!(f32::from_bits(z.bypass_time2_bits), 10.0);
    assert!(p.zone(2).is_none());
    p.setup_zones(0);
    assert!(!p.is_combi());
    assert_eq!(p.into_item().name, "Piano");
}

#[test]
fn bank_first_patch_becomes_current() {
    let mut b = PatchBank::new(1, 2, true);
    assert!(b.current().is_none());
    b.add(PatchItem::new(0, 2, 0, 0, "A"));
    b.add(PatchItem::new(1, 2, 1, 0, "B"));
    assert_eq!(b.current().unwrap().item.name, "A");
}

#[test]
fn patch_browser_follows_its_current_bank() {
    let mut p = PatchBrowser::new("patches");
    assert!(!p.move_to_bank(1));
    p.add_bank(bank(0, &["A", "B"]));
    p.add_bank(bank(1, &["C"]));
    assert_eq!(shown(&p), vec!["A", "B"]);
    assert_eq!(p.browser.current_index, Some(0));
    assert!(p.move_to_bank(1));
    assert_eq!(shown(&p), vec!["C"]);
    assert_eq!(p.current_bank().unwrap().tag, 1);
    assert!(!p.move_to_bank(1));
    assert!(!p.move_to_bank(-2));
    assert!(p.move_to_bank(-1));
    assert_eq!(shown(&p), vec!["A", "B"]);
    assert!(!p.move_to_bank_index(2));
    assert!(p.move_to_bank_index(1));
    assert_eq!(p.current_bank, Some(1));
    p.add_bank(bank(2, &[]));
    assert_eq!(shown(&p), vec!["C"]);
    assert!(p.move_to_bank_index(2));
    assert!(shown(&p).is_empty());
    assert_eq!(p.browser.current_index, None);
}
