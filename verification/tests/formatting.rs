use sysfetch::bytesize::iec;
use sysfetch::duration::format_dhms;
use sysfetch::error::Error;
use sysfetch::mounts::{filesystem_entries, mount_candidates, FsStats, MountQuery};
use sysfetch::render::{render_drives, render_report};
use sysfetch::report::{report_panel, Snapshot};
use sysfetch::text::strip_path;

#[test]
fn duration_zero() {
    assert_eq!(format_dhms(0), "0s ");
}

#[test]
fn duration_seconds_only() {
    assert_eq!(format_dhms(59), "59s ");
}

#[test]
fn duration_exact_minute() {
    assert_eq!(format_dhms(60), "1m ");
}

#[test]
fn duration_exact_day() {
    assert_eq!(format_dhms(86400), "1d ");
}

#[test]
fn duration_all_units() {
    assert_eq!(format_dhms(90061), "1d 1h 1m 1s ");
}

#[test]
fn duration_minutes_and_seconds() {
    assert_eq!(format_dhms(125), "2m 5s ");
}

#[test]
fn bytesize_zero() {
    assert_eq!(iec(0), "0.0");
}

#[test]
fn bytesize_below_thousand() {
    assert_eq!(iec(999), "999.0");
}

#[test]
fn bytesize_exact_thousand() {
    assert_eq!(iec(1000), "1.0k");
}

#[test]
fn bytesize_megabytes() {
    assert_eq!(iec(1500000), "1.5M");
}

#[test]
fn bytesize_rounds_to_one_decimal() {
    assert_eq!(iec(1549), "1.5k");
    assert_eq!(iec(1551), "1.6k");
}

#[test]
fn bytesize_large_units() {
    assert_eq!(iec(2_000_000_000), "2.0G");
    assert_eq!(iec(3_000_000_000_000), "3.0T");
    assert_eq!(iec(4_000_000_000_000_000), "4.0P");
    assert_eq!(iec(5_000_000_000_000_000_000), "5.0E");
    assert_eq!(iec(u64::MAX), "18.4E");
}

fn mq(mount_point: &str, stats: Option<FsStats>) -> MountQuery {
    MountQuery {
        mount_point: mount_point.to_string(),
        stats,
    }
}

#[test]
fn filesystems_deduplicate_by_identity() {
    let st = FsStats {
        blocks: 1000,
        blocks_free: 400,
        block_size: 1000,
        fsid: 7,
    };
    let rows = filesystem_entries(vec![mq("/", Some(st)), mq("/home", Some(st))]);
    assert_eq!(rows.len(), 1);
    assert_eq!(rows[0].mount_point, "/");
    assert_eq!(rows[0].size, "1.0M");
    assert_eq!(rows[0].used, "600.0k");
}

#[test]
fn filesystems_zero_size_omitted() {
    let st = FsStats {
        blocks: 0,
        blocks_free: 0,
        block_size: 4096,
        fsid: 9,
    };
    let rows = filesystem_entries(vec![mq("/empty", Some(st))]);
    assert_eq!(rows.len(), 0);
}

#[test]
fn filesystems_failed_query_skipped() {
    let st = FsStats {
        blocks: 500,
        blocks_free: 100,
        block_size: 1000,
        fsid: 3,
    };
    let rows = filesystem_entries(vec![mq("/bad", None), mq("/good", Some(st))]);
    assert_eq!(rows.len(), 1);
    assert_eq!(rows[0].mount_point, "/good");
}

#[test]
fn mount_candidates_require_path_separator() {
    let table = "proc /proc proc rw 0 0\n/dev/sda1 / ext4 rw 0 0\ntmpfs /tmp tmpfs rw 0 0\n/dev/sdb1 /data ext4 rw 0 0\n";
    let picks = mount_candidates(table);
    assert_eq!(picks, vec!["/".to_string(), "/data".to_string()]);
}

#[test]
fn mount_candidates_skip_short_lines() {
    let table = "\n/dev/sda1\n/dev/sdb1 /data ext4 rw 0 0\n";
    let picks = mount_candidates(table);
    assert_eq!(picks, vec!["/data".to_string()]);
}

#[test]
fn report_contains_fields() {
    let shell = strip_path("/bin/bash");
    let editor = strip_path("/usr/bin/vim");
    let out = render_report(
        "alice",
        "examplehost",
        "Some Distro 1.0",
        "6.1.0",
        "1d 2h 3m 4s ",
        shell.as_str(),
        editor.as_str(),
        "16.0G",
        "8.5G",
    );
    assert!(out.contains("alice"));
    assert!(out.contains("examplehost"));
    assert!(out.contains("Some Distro 1.0"));
    assert!(out.contains("6.1.0"));
    assert!(out.contains("1d 2h 3m 4s "));
    assert!(out.contains("bash"));
    assert!(out.contains("vim"));
    assert!(out.contains("16.0G/8.5G"));
    assert!(out.contains("user"));
    assert!(out.contains("memory"));
}

#[test]
fn drives_boxes_sized_to_columns() {
    let st = FsStats {
        blocks: 1000,
        blocks_free: 400,
        block_size: 1000,
        fsid: 1,
    };
    let rows = filesystem_entries(vec![mq("/", Some(st))]);
    let out = render_drives(&rows);
    // mount point "/" is 1 char, size "1.0M" is 4, used "600.0k" is 6:
    // the top border is ╭ + 1 dash + 2 dashes + ┬ + 4 dashes + 1 dash + 6 dashes + ╮.
    assert!(out.contains("  ╭───┬───────────╮\n"));
    assert!(out.contains("  ╰───┴───────────╯\n"));
    assert!(out.contains("/"));
    assert!(out.contains("1.0M"));
    assert!(out.contains("600.0k"));
}

fn synthetic_snapshot() -> Snapshot {
    Snapshot {
        user: "alice".to_string(),
        shell_path: "/bin/bash".to_string(),
        editor_path: "/usr/bin/vim".to_string(),
        hostname_raw: "examplehost\n".to_string(),
        os_release: "NAME=Linux\nPRETTY_NAME=\"Some Distro 1.0\"\n".to_string(),
        kernel_raw: "6.1.0\n".to_string(),
        uptime_raw: "12345.67 89.1\n".to_string(),
        meminfo: "MemTotal: 1000 kB\nMemFree: 200 kB\nBuffers: 100 kB\nCached: 100 kB\nSlab: 100 kB\n"
            .to_string(),
    }
}

#[test]
fn end_to_end_panel() {
    let out = report_panel(&synthetic_snapshot()).unwrap();
    assert!(out.contains("alice"));
    assert!(out.contains("examplehost"));
    assert!(out.contains("Some Distro 1.0"));
    assert!(out.contains("6.1.0"));
    assert!(out.contains("3h 25m 45s "));
    assert!(out.contains("bash"));
    assert!(out.contains("vim"));
    assert!(out.contains("1.0M/500.0k"));
}

#[test]
fn end_to_end_bad_uptime_is_unknown() {
    let mut s = synthetic_snapshot();
    s.uptime_raw = "soon\n".to_string();
    assert_eq!(report_panel(&s), Err(Error::Unknown));
}

#[test]
fn end_to_end_bad_meminfo_is_unknown() {
    let mut s = synthetic_snapshot();
    s.meminfo = "MemTotal: 1000 kB\n".to_string();
    assert_eq!(report_panel(&s), Err(Error::Unknown));
}

#[test]
fn drives_keep_mount_table_order() {
    let a = FsStats {
        blocks: 1000,
        blocks_free: 400,
        block_size: 1000,
        fsid: 1,
    };
    let b = FsStats {
        blocks: 2000,
        blocks_free: 800,
        block_size: 1000,
        fsid: 2,
    };
    let rows = filesystem_entries(vec![mq("/", Some(a)), mq("/data", Some(b))]);
    assert_eq!(rows.len(), 2);
    assert_eq!(rows[0].mount_point, "/");
    assert_eq!(rows[1].mount_point, "/data");
    let out = render_drives(&rows);
    let first = out.find("1.0M").unwrap();
    let second = out.find("2.0M").unwrap();
    assert!(first < second);
}

#[test]
fn drives_empty_is_empty() {
    let rows = filesystem_entries(vec![]);
    let out = render_drives(&rows);
    assert_eq!(out, "");
}
