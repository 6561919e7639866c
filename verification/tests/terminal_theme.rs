use vmux_desktop::terminal_theme::{theme_colors_hash, theme_sync_targets};

fn reference_hash(bytes: &[u8]) -> u64 {
    let mut h: u64 = 0;
    for b in bytes {
        h = h.wrapping_mul(31).wrapping_add(*b as u64);
    }
    h
}

#[test]
fn theme_hash_matches_wrapping_polynomial() {
    assert_eq!(theme_colors_hash(&vec![]), 0);
    assert_eq!(theme_colors_hash(&vec![1, 2]), 33);
    let long: Vec<u8> = (0..60u32).map(|i| (i * 37 % 256) as u8).collect();
    assert_eq!(theme_colors_hash(&long), reference_hash(&long));
}

#[test]
fn theme_goes_to_all_terminals_when_colours_change() {
    let mut last = 0;
    let bytes = vec![255, 255, 255, 0, 0, 0];
    let t = theme_sync_targets(&mut last, &bytes, &vec![1, 2, 3], &vec![], &vec![]);
    assert_eq!(t, Some(vec![1, 2, 3]));
    assert_eq!(last, reference_hash(&bytes));
}

#[test]
fn unchanged_theme_goes_only_to_new_or_ready_terminals() {
    let bytes = vec![10, 20, 30];
    let mut last = reference_hash(&bytes);
    assert_eq!(theme_sync_targets(&mut last, &bytes, &vec![1, 2], &vec![], &vec![]), None);
    assert_eq!(
        theme_sync_targets(&mut last, &bytes, &vec![1, 2, 3], &vec![3], &vec![2]),
        Some(vec![3, 2])
    );
}
