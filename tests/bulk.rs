use population::bulk::{check_record, copy_statement, plan_bulk_load};
use population::error::PipelineError;

fn cols(names: &[&str]) -> Vec<String> {
    names.iter().map(|s| s.to_string()).collect()
}

#[test]
fn empty_batch_needs_no_call() {
    assert!(matches!(plan_bulk_load("swipe", &cols(&["result"]), &vec![]), Ok(None)));
}

#[test]
fn statement_lists_columns_in_order() {
    assert_eq!(
        copy_statement("match", &cols(&["fk_person1_id", "fk_person2_id", "date_formed", "status"])),
        "COPY match (fk_person1_id, fk_person2_id, date_formed, status) FROM STDIN (FORMAT CSV)"
    );
    assert_eq!(copy_statement("sex", &cols(&["name"])), "COPY sex (name) FROM STDIN (FORMAT CSV)");
}

#[test]
fn rows_are_sent_together_in_order() {
    let rows = vec![b"1,2\n".to_vec(), b"\"a,b\",\"x\ny\"\n".to_vec()];
    let req = plan_bulk_load("t", &cols(&["a", "b"]), &rows).unwrap().unwrap();
    assert_eq!(req.statement, "COPY t (a, b) FROM STDIN (FORMAT CSV)");
    assert_eq!(req.payload, b"1,2\n\"a,b\",\"x\ny\"\n".to_vec());
}

#[test]
fn wrong_field_count_fails_the_batch() {
    let rows = vec![b"1,2\n".to_vec(), b"1,2,3\n".to_vec()];
    assert!(matches!(plan_bulk_load("t", &cols(&["a", "b"]), &rows), Err(PipelineError::Serialization)));
}

#[test]
fn records_are_checked_field_by_field() {
    assert!(check_record(&b"a,,c\n".to_vec(), 3));
    assert!(check_record(&b"\"q\"\"uote\",x\n".to_vec(), 2));
    assert!(!check_record(&b"a,b".to_vec(), 2));
    assert!(!check_record(&b"a\nb\n".to_vec(), 1));
    assert!(!check_record(&b"\"open\n".to_vec(), 1));
    assert!(!check_record(&vec![], 0));
}
