use groundcover_cli::commands::alerts::{alert_rows, issue_rows};
use groundcover_cli::commands::api::{api_rows, workload_rows, yes_or_no};
use groundcover_cli::commands::clickhouse::tables_listing;

fn s(x: &str) -> String {
    x.to_string()
}

#[test]
fn alert_table_pads_cuts_and_skips_short_rows() {
    let monitor = "m".repeat(45);
    let rows = format!("2024-01-01 00:00:00\t{monitor}\tAlerting\tS1\tprod\tweb\nshort\trow\n");
    let out = alert_rows(&rows);
    assert_eq!(out.len(), 3);
    assert_eq!(
        out[0],
        format!("{:<24} {:<40} {:<10} {:<6} {:<20} {}", "TIMESTAMP", "MONITOR", "STATE", "SEV", "NAMESPACE", "WORKLOAD")
    );
    assert_eq!(out[1], "-".repeat(120));
    assert_eq!(
        out[2],
        format!("{:<24} {:<40} {:<10} {:<6} {:<20} {}", "2024-01-01 00:00:00", &monitor[..40], "Alerting", "S1", "prod", "web")
    );
}

#[test]
fn issue_table_shows_nulls_as_dashes() {
    let rows = "t\tns\tw\tissue\t\\N\t\\N\textra";
    let out = issue_rows(rows);
    assert_eq!(out.len(), 3);
    assert_eq!(out[2], format!("{:<24} {:<20} {:<25} {:<30} {:<8} {}", "t", "ns", "w", "issue", "-", "-"));
}

#[test]
fn api_table_cuts_names() {
    let name = "n".repeat(30);
    let rows = format!("{name}\tsvc\t/x\t1.5\t\\N\t3\t4");
    let out = api_rows(&rows);
    assert_eq!(out[1], "-".repeat(130));
    assert_eq!(
        out[2],
        format!("{:<20} {:<25} {:<50} {:<10} {:<8} {:<8} {}", &name[..20], "svc", "/x", "1.5", "-", "3", "4")
    );
}

#[test]
fn workload_table_shows_readiness() {
    let rows = "ns\tw\tDeployment\ttrue\t3\t\\N\t0\t1\t2\nns\tw2\tDaemonSet\tfalse\t1\t1\t1\t1\t1";
    let out = workload_rows(rows);
    assert_eq!(out.len(), 4);
    assert_eq!(
        out[2],
        format!("{:<20} {:<30} {:<12} {:<6} {:<6} {:<8} {:<8} {:<8} {}", "ns", "w", "Deployment", "yes", "3", "-", "0", "1", "2")
    );
    assert!(out[3].contains(" no "));
    assert_eq!(yes_or_no("true"), "yes");
    assert_eq!(yes_or_no("TRUE"), "no");
}

#[test]
fn empty_answers_give_only_the_header() {
    assert_eq!(alert_rows("").len(), 2);
    assert_eq!(workload_rows("\n").len(), 2);
}

#[test]
fn tables_listing_indents_names() {
    assert_eq!(
        tables_listing("logs\ntraces\n"),
        vec![s("Available tables:"), s("  logs"), s("  traces")]
    );
    assert_eq!(tables_listing(""), vec![s("Available tables:")]);
}

#[test]
fn table_columns_line_up() {
    let out = alert_rows("2024\tcpu\tNormal\tS3\tprod\tweb");
    for (offset, head, cell) in [(0, "TIMESTAMP", "2024"), (25, "MONITOR", "cpu"), (66, "STATE", "Normal"), (77, "SEV", "S3"), (84, "NAMESPACE", "prod"), (105, "WORKLOAD", "web")] {
        assert!(out[0][offset..].starts_with(head));
        assert!(out[2][offset..].starts_with(cell));
    }
}
