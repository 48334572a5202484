use fasttext::FastText;
use rustfasttext::classifier::Classifier;

fn put_i32(b: &mut Vec<u8>, v: i32) {
    b.extend_from_slice(&v.to_le_bytes());
}

fn put_i64(b: &mut Vec<u8>, v: i64) {
    b.extend_from_slice(&v.to_le_bytes());
}

fn put_entry(b: &mut Vec<u8>, word: &str, count: i64, label: bool) {
    b.extend_from_slice(word.as_bytes());
    b.push(0);
    put_i64(b, count);
    b.push(if label { 1 } else { 0 });
}

fn put_matrix(b: &mut Vec<u8>, rows: i64, cols: i64) {
    put_i64(b, rows);
    put_i64(b, cols);
    for i in 0..rows * cols {
        b.extend_from_slice(&((i as f32) * 0.1).to_le_bytes());
    }
}

/// A small supervised model in fastText's binary format: two words, two
/// labels, dimension 3.
fn small_model() -> FastText {
    model_declaring(2)
}

/// The same model, with its dictionary declaring `nlabels` labels.
fn model_declaring(nlabels: i32) -> FastText {
    let mut b = Vec::new();
    put_i32(&mut b, 793712314);
    put_i32(&mut b, 12);
    for v in [3, 5, 1, 1, 5, 1, 3, 3, 0, 0, 0, 100] {
        put_i32(&mut b, v);
    }
    b.extend_from_slice(&1e-4f64.to_le_bytes());
    put_i32(&mut b, 4);
    put_i32(&mut b, 2);
    put_i32(&mut b, nlabels);
    put_i64(&mut b, 10);
    put_i64(&mut b, -1);
    put_entry(&mut b, "</s>", 4, false);
    put_entry(&mut b, "disk", 3, false);
    put_entry(&mut b, "__label__disk", 2, true);
    put_entry(&mut b, "__label__network", 1, true);
    b.push(0);
    put_matrix(&mut b, 2, 3);
    b.push(0);
    put_matrix(&mut b, 2, 3);
    FastText::load(&mut b.as_slice()).unwrap()
}

#[test]
fn classifier_reads_its_model() {
    let clf = Classifier::from_model(small_model());
    assert!(clf.dictionary_fits());
    assert_eq!(
        clf.labels(),
        vec!["__label__disk".to_string(), "__label__network".to_string()]
    );
    assert_eq!(clf.vocab_size(), 2);
    assert_eq!(clf.dim(), 3);
    assert!(!clf.is_quantized());
}

#[test]
fn classifier_holds_a_model_whose_counts_do_not_fit() {
    let clf = Classifier::from_model(model_declaring(3));
    assert!(!clf.dictionary_fits());
    assert_eq!(clf.dim(), 3);
    assert!(!clf.is_quantized());
}

#[test]
fn classifier_gives_back_its_model() {
    let clf = Classifier::from_model(small_model());
    assert_eq!(clf.model().get_dimension(), 3);
}
