use slm::history::{load_data_from_csv, load_records, parse_centi, parse_u64, LoadError};

#[test]
fn history_record_converts_memory_to_percent() {
    let (cpu, mem) = load_data_from_csv(b"tick,cpu,mem\n0,12.5,500000000\n", 1_000_000_000).unwrap();
    assert_eq!(cpu, vec![(0, 1250)]);
    assert_eq!(mem, vec![(0, 5000)]);
}

#[test]
fn history_keeps_file_order() {
    let data = b"tick,cpu,mem\n5,1,100\n6,2.25,300\n2,0.5,50\n";
    let (cpu, mem) = load_data_from_csv(data, 1000).unwrap();
    assert_eq!(cpu, vec![(5, 100), (6, 225), (2, 50)]);
    assert_eq!(mem, vec![(5, 1000), (6, 3000), (2, 500)]);
}

#[test]
fn history_errors() {
    assert_eq!(load_data_from_csv(b"tick,cpu,mem\n", 1000), Err(LoadError::Empty));
    assert_eq!(load_data_from_csv(b"tick,cpu,mem\n1,2,3\n1,x,3\n", 1000), Err(LoadError::Malformed(1)));
    assert_eq!(load_data_from_csv(b"tick,cpu,mem\n1,2,3\n1,2\n", 1000), Err(LoadError::Unreadable));
    assert_eq!(load_data_from_csv(b"a,b\n1,2\n", 1000), Err(LoadError::Malformed(0)));
}

#[test]
fn records_without_csv() {
    let recs = vec![vec!["3".to_string(), "7.129".to_string(), "10".to_string()]];
    assert_eq!(load_records(&recs, 100), Ok((vec![(3, 712)], vec![(3, 1000)])));
    assert_eq!(load_records(&Vec::new(), 100), Err(LoadError::Empty));
}

#[test]
fn number_parsing() {
    assert_eq!(parse_u64("0"), Some(0));
    assert_eq!(parse_u64("18446744073709551615"), Some(u64::MAX));
    assert_eq!(parse_u64("18446744073709551616"), None);
    assert_eq!(parse_u64(""), None);
    assert_eq!(parse_u64("-1"), None);
    assert_eq!(parse_u64("1.0"), None);
    assert_eq!(parse_centi("12.5"), Some(1250));
    assert_eq!(parse_centi("12"), Some(1200));
    assert_eq!(parse_centi("0.07"), Some(7));
    assert_eq!(parse_centi("12."), None);
    assert_eq!(parse_centi(".5"), None);
    assert_eq!(parse_centi("1.2.3"), None);
    assert_eq!(parse_centi(""), None);
}

#[test]
fn fractional_tick_is_malformed() {
    assert_eq!(load_data_from_csv(b"tick,cpu,mem\n1.5,2,3\n", 1000), Err(LoadError::Malformed(0)));
}
