use tantivy_eml_dump::scan::{AccountScan, SCAN_PAGE};

fn scan_all(account_ids: &[u64]) -> (Vec<(u64, usize)>, Vec<usize>, Vec<usize>) {
    let mut scan = AccountScan::new(account_ids.len());
    let mut offsets = Vec::new();
    let mut positions = Vec::new();
    while let Some(offset) = scan.next_search() {
        offsets.push(offset);
        let end = (offset + SCAN_PAGE).min(account_ids.len());
        scan = scan.record_page(&account_ids[offset..end]);
        positions.push(scan.position());
    }
    let mut accounts = scan.accounts();
    accounts.sort();
    (accounts, offsets, positions)
}

#[test]
fn documents_are_counted_by_account() {
    let (accounts, offsets, positions) = scan_all(&[3, 1, 3, u64::MAX, 3]);
    assert_eq!(accounts, [(1, 1), (3, 3), (u64::MAX, 1)]);
    assert_eq!(offsets, [0]);
    assert_eq!(positions, [5]);
}

#[test]
fn pages_are_queried_one_behind_the_other() {
    let ids: Vec<u64> = (0..12345).map(|i| i % 7).collect();
    let (accounts, offsets, positions) = scan_all(&ids);
    assert_eq!(offsets, [0, 5000, 10000]);
    assert_eq!(positions, [5000, 10000, 12345]);
    assert_eq!(accounts.len(), 7);
    assert_eq!(accounts.iter().map(|a| a.1).sum::<usize>(), 12345);
    assert_eq!(accounts[0], (0, 1764));
}

#[test]
fn full_last_page_ends_the_scan() {
    let (accounts, offsets, _) = scan_all(&[9; 10000]);
    assert_eq!(accounts, [(9, 10000)]);
    assert_eq!(offsets, [0, 5000]);
}

#[test]
fn empty_index_has_no_accounts() {
    let (accounts, offsets, _) = scan_all(&[]);
    assert!(accounts.is_empty() && offsets.is_empty());
}

#[test]
fn empty_page_ends_the_scan() {
    let scan = AccountScan::new(20000);
    let scan = scan.record_page(&[1, 1]);
    assert_eq!(scan.next_search(), Some(5000));
    let scan = scan.record_page(&[]);
    assert_eq!(scan.next_search(), None);
    assert_eq!(scan.accounts(), [(1, 2)]);
    assert_eq!(scan.position(), 5000);
}
