//! Tests of the ligatures module.
use terminal::ligatures::LigatureDetector;

#[test]
fn test_ligature_detector() {
    let mut detector = LigatureDetector::new();
    
    let chars: Vec<char> = "=>".chars().collect();
    let ligature = detector.detect(&chars, 0);
    assert!(ligature.is_some());
    let lig = ligature.unwrap();
    assert_eq!(lig.sequence, "=>");
    assert_eq!(lig.width, 2);
}

#[test]
fn test_no_ligature() {
    let mut detector = LigatureDetector::new();
    
    let chars: Vec<char> = "ab".chars().collect();
    let ligature = detector.detect(&chars, 0);
    assert!(ligature.is_none());
}

#[test]
fn test_longest_ligature_first() {
    let mut detector = LigatureDetector::new();
    
    // "=>" should match before "=="
    let chars: Vec<char> = "=>".chars().collect();
    let ligature = detector.detect(&chars, 0);
    assert!(ligature.is_some());
    assert_eq!(ligature.unwrap().sequence, "=>");
}
