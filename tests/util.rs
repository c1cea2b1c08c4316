use std::collections::HashMap;

use box_kernel::util::{default_false, default_true, BoxContext, LineageVisitor, Partitions, Statistics};

#[test]
fn defaults() {
    assert!(default_true());
    assert!(!default_false());
}

#[test]
fn statistics_need_a_row_count() {
    let p = Partitions::new(Some(4), None);
    assert_eq!(p.input, Some(4));
    assert_eq!(p.output, None);
    assert!(Statistics::new(None, Some(10), Some(p)).is_none());
    let s = Statistics::new(Some(3), Some(10), Some(p)).unwrap();
    assert_eq!(s.row_count, Some(3));
    assert_eq!(s.total_byte_size, Some(10));
    assert_eq!(s.partitions, Some(p));
}

#[test]
fn lineage_visitor_records_scans() {
    let mut v = LineageVisitor::new(false);
    assert!(v.table_scan.is_empty());
    assert!(!v.visit_table_scan("a".to_string()));
    assert!(!v.visit_table_scan("b".to_string()));
    assert_eq!(v.table_scan, vec!["a".to_string(), "b".to_string()]);
    let mut p = LineageVisitor::new(true);
    assert!(p.visit_table_scan("c".to_string()));
}

#[test]
fn box_context_keeps_what_it_is_given() {
    let mut env = HashMap::new();
    env.insert("HOME".to_string(), "/root".to_string());
    let ctx = BoxContext::new(Some("/job.json".to_string()), None, env.clone());
    assert_eq!(ctx.job_path, Some("/job.json".to_string()));
    assert_eq!(ctx.version, "0.1.0");
    assert!(ctx.commandline_arguments.is_none());
    assert_eq!(ctx.environment_variables, env);
}
