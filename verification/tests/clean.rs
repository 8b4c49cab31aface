use pipeline::server::clean::{clean_states, format_size, CleanSummary};
use pipeline::server::database::ProcessStatus;

fn with_floats(size: u64) -> String {
    let gibi = 1024u64.pow(3);
    let mebi = 1024u64.pow(2);
    let kibi = 1024u64;
    let (scaled, unit) = if size > gibi {
        (size as f64 / gibi as f64, "GiB")
    } else if size > mebi {
        (size as f64 / mebi as f64, "MiB")
    } else if size > kibi {
        (size as f64 / kibi as f64, "kiB")
    } else {
        (size as f64, "B")
    };
    if unit == "B" {
        format!("{scaled:.0} {unit}")
    } else {
        format!("{scaled:.1} {unit}")
    }
}

#[test]
fn format_size_values() {
    assert_eq!(format_size(0), "0 B");
    assert_eq!(format_size(2), "2 B");
    assert_eq!(format_size(1024), "1024 B");
    assert_eq!(format_size(1025), "1.0 kiB");
    assert_eq!(format_size(1536), "1.5 kiB");
    assert_eq!(format_size(1280), "1.2 kiB");
    assert_eq!(format_size(1792), "1.8 kiB");
    assert_eq!(format_size(1024 * 1024), "1024.0 kiB");
    assert_eq!(format_size(1024 * 1024 + 1), "1.0 MiB");
    assert_eq!(format_size(5 * 1024 * 1024 + 512 * 1024), "5.5 MiB");
    assert_eq!(format_size(1024 * 1024 * 1024), "1024.0 MiB");
    assert_eq!(format_size(3 * 1024 * 1024 * 1024), "3.0 GiB");
    assert_eq!(format_size(u64::MAX), "17179869184.0 GiB");
}

#[test]
fn format_size_agrees_with_floating_point() {
    let mut sizes: Vec<u64> = vec![0, 1, 1023, 1024, 1025, 1075, 1076, 1077, 1126, 1127, 1128];
    for shift in 10..64 {
        let base = 1u64 << shift;
        for delta in [0u64, 1, 2, 3, 51, 52, 102, 103, 511, 512, 513, 1023, 1024, 1025] {
            sizes.push(base.wrapping_add(delta));
            sizes.push(base.wrapping_sub(delta));
            sizes.push(base.wrapping_add(base / 20).wrapping_add(delta));
            sizes.push(base.wrapping_add(base / 4).wrapping_sub(delta));
            sizes.push((base / 5).wrapping_mul(7).wrapping_add(delta));
        }
    }
    // ties of the rounding to one decimal, and of the rounding to 53 bits
    for odd in [1u64, 3, 5, 7, 9, 11, 13, 15, 25, 35, 45, 1001, 4097] {
        sizes.push(odd * 256);
        sizes.push(odd * 256 * 1024);
        sizes.push(odd * 256 * 1024 * 1024);
        sizes.push((1u64 << 53) + odd);
        sizes.push((1u64 << 54) + 2 * odd);
        sizes.push((1u64 << 54) + 2 * odd + 1);
        sizes.push((1u64 << 60) + 64 * odd);
        sizes.push((1u64 << 63) + 1024 * odd);
        sizes.push(u64::MAX - odd);
        sizes.push((odd << 58).wrapping_add(odd << 28));
        sizes.push((5 * odd) << 28);
    }
    let mut state = 0x9e3779b97f4a7c15u64;
    for _ in 0..20000 {
        state ^= state << 13;
        state ^= state >> 7;
        state ^= state << 17;
        sizes.push(state);
        sizes.push(state >> (state % 64));
    }
    for size in sizes {
        assert_eq!(format_size(size), with_floats(size), "size {size}");
    }
}

#[test]
fn summary_counts_and_sums() {
    let mut summary = CleanSummary::new();
    assert_eq!(summary.nfiles, 0);
    assert_eq!(summary.total_size, 0);
    assert_eq!(summary.to_string(), "deleted 0 files (0 B)");
    assert!(summary.can_add(2));
    summary.add(2);
    assert!(summary.can_add(2048));
    summary.add(2048);
    assert_eq!(summary.nfiles, 2);
    assert_eq!(summary.total_size, 2050);
    assert_eq!(summary.to_string(), "deleted 2 files (2.0 kiB)");
    assert!(!summary.can_add(u64::MAX - 2049));
    assert!(summary.can_add(u64::MAX - 2050));
    let full = CleanSummary { nfiles: u32::MAX, total_size: 0 };
    assert!(!full.can_add(0));
    assert_eq!(full.to_string(), "deleted 4294967295 files (0 B)");
}

#[test]
fn cleaned_states() {
    assert_eq!(clean_states(false), vec![ProcessStatus::ToPrune]);
    assert_eq!(clean_states(true), vec![ProcessStatus::Done, ProcessStatus::ToPrune]);
}
