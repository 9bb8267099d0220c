use led_matrix::config::{Config, Pattern};
use led_matrix::device::led_matrix::PatternId;

#[test]
fn default_configuration_lists_the_built_in_patterns() {
    let config = Config::default();
    let expected: Vec<(&str, PatternId, &str)> = vec![
        ("all_off", 0, "All Off"),
        ("gradient", 1, "Gradient"),
        ("double_gradient", 2, "Double Gradient"),
        ("lotus_sideways", 3, "Lotus Sideways"),
        ("zigzag", 4, "Zigzag"),
        ("all_on", 5, "All On"),
        ("panic", 6, "Panic"),
        ("lotus_top_down", 7, "Lotus Top Down"),
    ];
    assert_eq!(config.patterns.len(), 8);
    for (entry, (name, id, label)) in config.patterns.iter().zip(expected) {
        assert_eq!(entry.0, name);
        assert_eq!(entry.1.id, id);
        assert_eq!(entry.1.label, label);
    }
}

#[test]
fn default_names_are_distinct() {
    let config = Config::default();
    for (i, first) in config.patterns.iter().enumerate() {
        for second in &config.patterns[i + 1..] {
            assert_ne!(first.0, second.0);
        }
    }
}

#[test]
fn pattern_at_follows_the_listing() {
    let config = Config::default();
    for index in 0..8 {
        assert_eq!(config.pattern_at(index), Some(index as PatternId));
    }
    assert_eq!(config.pattern_at(8), None);
    assert_eq!(config.pattern_at(-1), None);
    assert_eq!(config.pattern_at(i32::MAX), None);
    assert_eq!(config.pattern_at(i32::MIN), None);
}

#[test]
fn pattern_at_reads_the_id_not_the_index() {
    let config = Config {
        patterns: vec![("only".to_string(), Pattern { id: 99, label: "Only".to_string() })],
    };
    assert_eq!(config.pattern_at(0), Some(99));
    assert_eq!(config.pattern_at(1), None);
    assert_eq!(Config { patterns: Vec::new() }.pattern_at(0), None);
}

#[test]
fn default_pattern_is_empty() {
    assert_eq!(Pattern::default(), Pattern { id: 0, label: String::new() });
}
