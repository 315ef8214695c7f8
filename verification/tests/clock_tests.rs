use repo_saver::clock::{chrono_now, format_timestamp};

#[test]
fn timestamp_fields_are_zero_padded() {
    assert_eq!(format_timestamp(0), "00000_00_00_00");
    assert_eq!(format_timestamp(90061), "00001_01_01_01");
    assert_eq!(format_timestamp(86399), "00000_23_59_59");
    assert_eq!(format_timestamp(1725029869), "19965_14_57_49");
}

#[test]
fn timestamp_beyond_five_digit_days_is_not_truncated() {
    assert_eq!(format_timestamp(100000 * 86400), "100000_00_00_00");
}

#[test]
fn timestamps_sort_like_the_instants() {
    let times = [0u64, 59, 60, 3599, 3600, 86399, 86400, 1725029869, 1725029870, 8639999999];
    for a in times {
        for b in times {
            let (ta, tb) = (format_timestamp(a), format_timestamp(b));
            assert_eq!(a < b, ta < tb, "{a} {b}");
        }
    }
}

#[test]
fn current_timestamp_has_the_backup_shape() {
    let t = chrono_now();
    assert_eq!(t.len(), 14);
    let parts: Vec<&str> = t.split('_').collect();
    assert_eq!(parts.len(), 4);
    assert_eq!(parts[0].len(), 5);
    assert!(parts.iter().all(|p| p.chars().all(|c| c.is_ascii_digit())));
    assert!(t.as_str() > "19000_00_00_00");
}
