use soundboard::preset::{has_category, is_preset_key, preset_keys, Preset, PresetList};
use soundboard::sample::Sample;
use soundboard::sequencer::Sequencer;
use soundboard::shared::Category;

fn grid() -> Vec<Option<Sample>> {
    vec![
        Some(Sample::from_file("doors", "slam", 1_250_000)),
        None,
        Some(Sample::from_file("people", "cough", 700_000)),
        None,
        Some(Sample::from_file("doors", "creak", 2_000_000)),
        Some(Sample::from_file("boom", "hit_1", 325_670)),
    ]
}

fn sequencer() -> Sequencer {
    let mut seq = Sequencer::new(grid(), 6);
    seq.set_gap(2500);
    seq.set_volume(80);
    seq.toggle_random();
    seq
}

fn preset(id: &str, created: i64) -> Preset {
    Preset {
        id: id.to_string(),
        name: format!("made at {}", created),
        volume: 1,
        gap_duration: 1,
        random_playback: false,
        grid_data: Vec::new(),
        created,
    }
}

#[test]
fn capture_snapshots_settings_and_grid() {
    let seq = sequencer();
    let p = Preset::capture(&seq, "Evening".to_string(), "aB3x", "2024.12.24 18:30", 99);
    assert_eq!(p.id, "preset_aB3x");
    assert_eq!(p.name, "Evening");
    assert_eq!(p.volume, 80);
    assert_eq!(p.gap_duration, 2500);
    assert!(p.random_playback);
    assert_eq!(p.created, 99);
    assert_eq!(p.grid_data.len(), 6);
    assert_eq!(p.grid_data[0].as_ref().unwrap().id, "doors_slam");
    assert!(p.grid_data[1].is_none());
    assert_eq!(p.grid_data[5].as_ref().unwrap().duration_us, 325_670);
}

#[test]
fn a_preset_without_name_is_called_after_its_date() {
    let seq = sequencer();
    let p = Preset::capture(&seq, String::new(), "aB3x", "2024.12.24 18:30", 99);
    assert_eq!(p.name, "Preset 2024.12.24 18:30");
}

#[test]
fn a_preset_does_not_follow_later_edits() {
    let mut seq = sequencer();
    let p = Preset::capture(&seq, "Evening".to_string(), "aB3x", "", 99);
    seq.erase();
    seq.set_gap(1);
    assert_eq!(p.filled_cells(), 4);
    assert_eq!(p.gap_duration, 2500);
    seq.load_preset(&p);
    assert_eq!(seq.gap_ms, 2500);
    assert_eq!(seq.volume, 80);
    assert!(seq.random);
    assert!(seq.is_cell_filled(0));
    assert!(!seq.is_cell_filled(1));
    assert_eq!(seq.grid[2].as_ref().unwrap().filename, "cough");
}

#[test]
fn save_appends_a_preset_with_a_fresh_identifier() {
    let seq = sequencer();
    let mut list = PresetList::new();
    let saved = list.save("Evening".to_string(), &seq);
    assert_eq!(list.presets.len(), 1);
    assert_eq!(list.presets[0].id, saved.id);
    assert_eq!(saved.name, "Evening");
    assert_eq!(saved.id.len(), 11);
    assert!(saved.id.starts_with("preset_"));
    assert!(saved.id[7..].chars().all(|c| c.is_ascii_alphanumeric()));
    assert_eq!(saved.gap_duration, 2500);
    assert_eq!(saved.volume, 80);
    assert_eq!(saved.grid_data.len(), 6);
    assert!(saved.created > 1_600_000_000_000_000);
    let unnamed = list.save(String::new(), &seq);
    assert_eq!(list.presets.len(), 2);
    assert_eq!(list.presets[1].name, unnamed.name);
    assert!(unnamed.name.starts_with("Preset 20"));
    assert_eq!(unnamed.name.len(), "Preset 2024.12.24 18:30".len());
    assert_eq!(&unnamed.name[11..12], ".");
    assert_eq!(&unnamed.name[20..21], ":");
    assert!(unnamed.created >= saved.created);
}

#[test]
fn identifiers_are_random() {
    let seq = sequencer();
    let mut list = PresetList::new();
    let mut seen = Vec::new();
    for _ in 0..20 {
        seen.push(list.save(String::new(), &seq).id);
    }
    seen.sort();
    seen.dedup();
    assert!(seen.len() > 1);
}

#[test]
fn delete_removes_by_identifier() {
    let mut list = PresetList::new();
    list.presets.push(preset("preset_aaaa", 1));
    list.presets.push(preset("preset_bbbb", 2));
    list.presets.push(preset("preset_aaaa", 3));
    list.presets.push(preset("preset_cccc", 4));
    list.delete("preset_aaaa");
    assert_eq!(list.presets.len(), 2);
    assert_eq!(list.presets[0].id, "preset_bbbb");
    assert_eq!(list.presets[1].id, "preset_cccc");
    list.delete("preset_zzzz");
    assert_eq!(list.presets.len(), 2);
}

#[test]
fn find_gives_the_first_with_the_identifier() {
    let mut list = PresetList::new();
    list.presets.push(preset("preset_aaaa", 1));
    list.presets.push(preset("preset_bbbb", 2));
    list.presets.push(preset("preset_bbbb", 3));
    assert_eq!(list.find("preset_bbbb").unwrap().created, 2);
    assert_eq!(list.find("preset_aaaa").unwrap().created, 1);
    assert!(list.find("preset_cccc").is_none());
}

#[test]
fn restore_sorts_by_creation_and_keeps_ties_in_order() {
    let found = vec![
        preset("preset_c", 30),
        preset("preset_a", 10),
        preset("preset_x", 20),
        preset("preset_y", 20),
        preset("preset_b", -5),
        preset("preset_z", 20),
    ];
    let list = PresetList::restore(found);
    let order: Vec<&str> = list.presets.iter().map(|p| p.id.as_str()).collect();
    assert_eq!(order, vec!["preset_b", "preset_a", "preset_x", "preset_y", "preset_z", "preset_c"]);
    assert!(PresetList::restore(Vec::new()).presets.is_empty());
}

#[test]
fn presets_are_equal_when_made_at_the_same_instant() {
    assert!(preset("preset_a", 5) == preset("preset_b", 5));
    assert!(preset("preset_a", 5) != preset("preset_a", 6));
}

#[test]
fn preset_keys_are_told_by_their_prefix() {
    assert!(is_preset_key("preset_aB3x"));
    assert!(is_preset_key("preset_"));
    assert!(!is_preset_key("preset"));
    assert!(!is_preset_key("grid_data"));
    assert!(!is_preset_key("Preset_aB3x"));
    assert!(!is_preset_key(""));
    let keys = vec![
        "duration".to_string(),
        "preset_b".to_string(),
        "volume".to_string(),
        "preset_a".to_string(),
        "recurring_schedules".to_string(),
    ];
    assert_eq!(preset_keys(&keys), vec!["preset_b".to_string(), "preset_a".to_string()]);
}

#[test]
fn summary_counts_cells_and_lists_glyphs_in_code_point_order() {
    let seq = sequencer();
    let p = Preset::capture(&seq, "Evening".to_string(), "aB3x", "", 99);
    assert_eq!(p.filled_cells(), 4);
    assert_eq!(p.gap_seconds(), 2);
    assert_eq!(p.category_emojis(), "\u{1F3C0}\u{1F6AA}\u{1F926}");
    assert!(has_category(&p.grid_data, Category::Doors));
    assert!(!has_category(&p.grid_data, Category::Eerie));
    let mut all = grid();
    all.push(Some(Sample::from_file("eerie", "wind", 1)));
    all.push(Some(Sample::from_file("construction", "drill", 1)));
    let everything = Preset { grid_data: all, ..preset("preset_a", 1) };
    let glyphs = everything.category_emojis();
    assert_eq!(glyphs, "\u{1F3C0}\u{1F47B}\u{1F528}\u{1F6AA}\u{1F926}");
    let mut sorted: Vec<char> = glyphs.chars().collect();
    sorted.sort();
    assert_eq!(sorted, glyphs.chars().collect::<Vec<char>>());
    assert_eq!(preset("preset_a", 1).category_emojis(), "");
    assert_eq!(preset("preset_a", 1).filled_cells(), 0);
}

#[test]
fn clone_of_a_preset_copies_every_field() {
    let seq = sequencer();
    let p = Preset::capture(&seq, "Evening".to_string(), "aB3x", "", 99);
    let q = p.clone();
    assert_eq!(q.id, p.id);
    assert_eq!(q.name, p.name);
    assert_eq!(q.volume, p.volume);
    assert_eq!(q.gap_duration, p.gap_duration);
    assert_eq!(q.random_playback, p.random_playback);
    assert_eq!(q.created, p.created);
    assert_eq!(q.grid_data.len(), p.grid_data.len());
    assert_eq!(q.grid_data[4].as_ref().unwrap().filepath, "/public/sounds/doors/creak.mp3");
}

#[test]
fn presets_compare_by_creation_with_the_operators() {
    assert!(preset("preset_z", 1) < preset("preset_a", 2));
    assert!(preset("preset_a", 3) > preset("preset_z", 2));
    assert!(preset("preset_a", 3) <= preset("preset_z", 3));
    assert_eq!(
        preset("preset_a", 3).partial_cmp(&preset("preset_z", 3)),
        Some(std::cmp::Ordering::Equal)
    );
}
