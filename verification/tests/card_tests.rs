use spectrum_card::card::{default_spectrums, find_saved, merge_spectrums, restore_spectrums, App};
use spectrum_card::spectrum::{Quadrant, Spectrum};

fn entry(name: &str, value: Spectrum) -> (String, Spectrum) {
    (name.to_string(), value)
}

#[test]
fn default_card_has_twelve_unknown_spectrums() {
    let list = default_spectrums();
    assert_eq!(list.len(), 12);
    for (i, (name, value)) in list.iter().enumerate() {
        assert_eq!(name, &format!("Spectrum{}", i + 1));
        assert_eq!(*value, Spectrum::Unknown);
    }
}

#[test]
fn fresh_app_is_empty() {
    let app = App::default();
    assert_eq!(app.spectrums, default_spectrums());
    assert_eq!(app.name, "");
    assert_eq!(app.pronouns, "");
    assert!(app.background_image.is_none());
    assert!(app.background_image_name.is_none());
}

#[test]
fn new_without_storage_is_fresh() {
    let app = App::new(None);
    assert_eq!(app.spectrums, default_spectrums());
    assert_eq!(app.name, "");
}

#[test]
fn new_with_storage_restores_it() {
    let stored = vec![
        entry("Spectrum3", Spectrum::Number(0.25f32.to_bits())),
        entry("Removed", Spectrum::Unknown),
    ];
    let app = App::new(Some((stored, "Robin".to_string(), "they/them".to_string())));
    assert_eq!(app.name, "Robin");
    assert_eq!(app.pronouns, "they/them");
    assert!(app.background_image.is_none());
    assert_eq!(app.spectrums.len(), 12);
    for (i, (name, value)) in app.spectrums.iter().enumerate() {
        assert_eq!(name, &format!("Spectrum{}", i + 1));
        if i == 2 {
            assert_eq!(*value, Spectrum::Number(0.25f32.to_bits()));
        } else {
            assert_eq!(*value, Spectrum::Unknown);
        }
    }
}

#[test]
fn find_saved_takes_first_match() {
    let saved = vec![
        entry("A", Spectrum::Unknown),
        entry("B", Spectrum::Quadrants(Quadrant::Q1)),
        entry("B", Spectrum::Quadrants(Quadrant::Q4)),
    ];
    assert_eq!(find_saved(&saved, &"B".to_string()), Some(Spectrum::Quadrants(Quadrant::Q1)));
    assert_eq!(find_saved(&saved, &"C".to_string()), None);
}

#[test]
fn merge_keeps_current_names_in_order() {
    let current = vec![entry("A", Spectrum::Unknown), entry("B", Spectrum::Unknown), entry("C", Spectrum::Unknown)];
    let saved = vec![
        entry("C", Spectrum::Quadrants(Quadrant::Q2)),
        entry("Z", Spectrum::Quadrants(Quadrant::Q3)),
        entry("A", Spectrum::Number(7)),
    ];
    let merged = merge_spectrums(&current, &saved);
    assert_eq!(
        merged,
        vec![
            entry("A", Spectrum::Number(7)),
            entry("B", Spectrum::Unknown),
            entry("C", Spectrum::Quadrants(Quadrant::Q2)),
        ]
    );
}

#[test]
fn merge_with_nothing_saved_changes_nothing() {
    let current = vec![entry("A", Spectrum::Number(3)), entry("B", Spectrum::Unknown)];
    assert_eq!(merge_spectrums(&current, &Vec::new()), current);
}

#[test]
fn restore_fills_defaults_from_saved() {
    let saved = vec![
        entry("Spectrum3", Spectrum::Quadrants(Quadrant::M)),
        entry("Old spectrum", Spectrum::Number(1)),
    ];
    let restored = restore_spectrums(&saved);
    assert_eq!(restored.len(), 12);
    for (i, (name, value)) in restored.iter().enumerate() {
        assert_eq!(name, &format!("Spectrum{}", i + 1));
        if i == 2 {
            assert_eq!(*value, Spectrum::Quadrants(Quadrant::M));
        } else {
            assert_eq!(*value, Spectrum::Unknown);
        }
    }
}

#[test]
fn restore_round_trip() {
    let saved = vec![
        entry("Spectrum1", Spectrum::Number(0.5f32.to_bits())),
        entry("Spectrum12", Spectrum::Quadrants(Quadrant::Q4)),
        entry("Spectrum1", Spectrum::Unknown),
    ];
    let once = restore_spectrums(&saved);
    let twice = restore_spectrums(&once);
    assert_eq!(once, twice);
}

#[test]
fn reload_is_stable_for_distinct_names() {
    let current = vec![entry("X", Spectrum::Unknown), entry("Y", Spectrum::Number(2))];
    let saved = vec![entry("Y", Spectrum::Quadrants(Quadrant::Q1)), entry("W", Spectrum::Unknown)];
    let once = merge_spectrums(&current, &saved);
    assert_eq!(merge_spectrums(&current, &once), once);
}

#[test]
fn background_set_then_cleared() {
    let mut app = App::default();
    app.name = "Sam".to_string();
    app.set_background("bg.png".to_string(), vec![1, 2, 3]);
    assert_eq!(app.background_image, Some(vec![1, 2, 3]));
    assert_eq!(app.background_image_name, Some("bg.png".to_string()));
    assert_eq!(app.name, "Sam");
    app.set_background("other.jpg".to_string(), vec![9]);
    assert_eq!(app.background_image, Some(vec![9]));
    assert_eq!(app.background_image_name, Some("other.jpg".to_string()));
    app.clear_background();
    assert!(app.background_image.is_none());
    assert!(app.background_image_name.is_none());
    assert_eq!(app.name, "Sam");
    assert_eq!(app.spectrums, default_spectrums());
}

#[test]
fn restore_card_from_stored_parts() {
    let stored = vec![
        entry("Spectrum7", Spectrum::Quadrants(Quadrant::Q2)),
        entry("Gone", Spectrum::Number(4)),
    ];
    let app = App::restore(&stored, "Jo".to_string(), "any".to_string());
    assert_eq!(app.name, "Jo");
    assert_eq!(app.pronouns, "any");
    assert!(app.background_image.is_none());
    assert!(app.background_image_name.is_none());
    assert_eq!(app.spectrums.len(), 12);
    for (i, (name, value)) in app.spectrums.iter().enumerate() {
        assert_eq!(name, &format!("Spectrum{}", i + 1));
        if i == 6 {
            assert_eq!(*value, Spectrum::Quadrants(Quadrant::Q2));
        } else {
            assert_eq!(*value, Spectrum::Unknown);
        }
    }
}

#[test]
fn set_value_changes_only_that_value() {
    let mut app = App::default();
    app.set_background("bg.png".to_string(), vec![5]);
    app.set_value(4, Spectrum::Quadrants(Quadrant::Q3));
    app.set_value(0, Spectrum::Number(0.8f32.to_bits()));
    assert_eq!(app.spectrums.len(), 12);
    for (i, (name, value)) in app.spectrums.iter().enumerate() {
        assert_eq!(name, &format!("Spectrum{}", i + 1));
        match i {
            0 => assert_eq!(*value, Spectrum::Number(0.8f32.to_bits())),
            4 => assert_eq!(*value, Spectrum::Quadrants(Quadrant::Q3)),
            _ => assert_eq!(*value, Spectrum::Unknown),
        }
    }
    assert_eq!(app.background_image, Some(vec![5]));
    assert_eq!(app.background_image_name, Some("bg.png".to_string()));
}
