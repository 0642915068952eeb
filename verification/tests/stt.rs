use sayit::stt::ModelId;

#[test]
fn model_keys_match_config_names() {
    for m in ModelId::all() {
        assert_eq!(m.key().parse::<ModelId>().unwrap(), m);
        assert_eq!(ModelId::from_config(m.key()).0, m);
        assert!(ModelId::from_config(m.key()).1.is_none());
    }
    assert!("whisper".parse::<ModelId>().is_err());
    // Removed or unknown models fall back to the default.
    assert_eq!(ModelId::from_config("no-such-model").0, ModelId::DEFAULT);
}

#[test]
fn unknown_model_error_lists_the_keys() {
    assert_eq!(
        ModelId::parse_key("whisper").unwrap_err(),
        "unknown model \"whisper\" (available: parakeet-v2)"
    );
    assert_eq!(
        ModelId::from_config("gone").1.unwrap(),
        "config: unknown model \"gone\" (available: parakeet-v2); using parakeet-v2"
    );
}

#[test]
fn model_names() {
    let m = ModelId::ParakeetV2;
    assert_eq!(m.key(), "parakeet-v2");
    assert_eq!(m.label(), "Parakeet v2 (English)");
    assert_eq!(m.dir_name(), "parakeet-tdt-0.6b-v2-int8");
    assert_eq!(m.last_file(), "vocab.txt");
    assert_eq!(ModelId::at(0), Some(m));
    assert_eq!(ModelId::at(1), None);
    assert_eq!(ModelId::at(-1), None);
}
