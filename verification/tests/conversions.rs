use dysonphere::types::convert_sample_index;

#[test]
fn convert_sample_index_doubles_rate() {
    assert_eq!(convert_sample_index(100, 22050, 44100), 200);
}
