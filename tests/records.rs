use num_bigint::BigInt;
use share_interp::decode::DecodeError;
use share_interp::interp::InterpError;
use share_interp::pipeline::{reconstruct, ReconstructError};
use share_interp::records::{insert_entry, read_values_from_map, ReadError, RecordTable};

fn table(rows: &[(&str, &str, &str)]) -> RecordTable {
    let mut t = RecordTable::new();
    for (x, b, v) in rows {
        insert_entry(&mut t, x, b, v);
    }
    t
}

#[test]
fn insert_adds_new_abscissas_in_order() {
    let t = table(&[("1", "10", "4"), ("2", "2", "111")]);
    assert_eq!(t.entries.len(), 2);
    assert_eq!(t.entries[0].x, "1");
    assert_eq!(t.entries[1].x, "2");
    assert_eq!(t.entries[1].base, "2");
    assert_eq!(t.entries[1].value, "111");
}

#[test]
fn insert_replaces_same_abscissa() {
    let t = table(&[("1", "10", "4"), ("2", "2", "111"), ("1", "16", "ff")]);
    assert_eq!(t.entries.len(), 2);
    assert_eq!(t.entries[0].x, "1");
    assert_eq!(t.entries[0].base, "16");
    assert_eq!(t.entries[0].value, "ff");
}

#[test]
fn reads_records_into_points() {
    let t = table(&[("6", "8", "15"), ("-3", "16", "ff")]);
    let (xs, ys) = read_values_from_map(&t).unwrap();
    assert_eq!(BigInt::from_signed_bytes_le(&xs[0].bytes), BigInt::from(6));
    assert_eq!(BigInt::from_signed_bytes_le(&ys[0].bytes), BigInt::from(13));
    assert_eq!(BigInt::from_signed_bytes_le(&xs[1].bytes), BigInt::from(-3));
    assert_eq!(BigInt::from_signed_bytes_le(&ys[1].bytes), BigInt::from(255));
}

#[test]
fn read_errors_name_the_cause() {
    assert_eq!(read_values_from_map(&table(&[("a", "10", "1")])).unwrap_err(), ReadError::BadAbscissa);
    assert_eq!(read_values_from_map(&table(&[("1", "ten", "1")])).unwrap_err(), ReadError::BadRadix);
    assert_eq!(
        read_values_from_map(&table(&[("1", "40", "1")])).unwrap_err(),
        ReadError::Decode(DecodeError::InvalidRadix)
    );
    assert_eq!(
        read_values_from_map(&table(&[("1", "8", "9")])).unwrap_err(),
        ReadError::Decode(DecodeError::InvalidDigit)
    );
}

#[test]
fn octal_record_joins_interpolation() {
    // y = 2x + 1: (1, "3" in base 10) and (6, "15" in base 8, which is 13)
    let t = table(&[("1", "10", "3"), ("6", "8", "15")]);
    let p = reconstruct(&t, 2).unwrap();
    let c: Vec<String> = p.coefficients.iter().map(|q| q.text()).collect();
    assert_eq!(c, vec!["1", "2"]);
}

#[test]
fn reconstruct_uses_first_k_records() {
    let t = table(&[("1", "10", "4"), ("2", "10", "9"), ("3", "10", "16"), ("4", "x", "bad")]);
    let p = reconstruct(&t, 3).unwrap();
    let c: Vec<String> = p.coefficients.iter().map(|q| q.text()).collect();
    assert_eq!(c, vec!["1", "2", "1"]);
    assert_eq!(reconstruct(&t, 4).unwrap_err(), ReconstructError::Read(ReadError::BadRadix));
}

#[test]
fn reconstruct_reports_interpolation_errors() {
    let t = table(&[("2", "10", "5"), ("02", "10", "9")]);
    assert_eq!(
        reconstruct(&t, 5).unwrap_err(),
        ReconstructError::Interp(InterpError::DegenerateSampleSet)
    );
    assert_eq!(
        reconstruct(&t, 0).unwrap_err(),
        ReconstructError::Interp(InterpError::InsufficientSamples)
    );
}
