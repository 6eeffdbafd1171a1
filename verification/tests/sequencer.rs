use soundboard::preset::Preset;
use soundboard::sample::Sample;
use soundboard::sequencer::{
    next_index, resolve_draw, sequential_next, toggle_preview, Command, Draw, PreviewCommand,
    Sequencer,
};
use soundboard::shared::Operation;

fn sample(stem: &str, duration_us: u64) -> Sample {
    Sample::from_file("doors", stem, duration_us)
}

fn empty_grid(len: usize) -> Vec<Option<Sample>> {
    let mut grid = Vec::new();
    for _ in 0..len {
        grid.push(None);
    }
    grid
}

#[test]
fn a_new_sequencer_is_stopped_at_the_first_cell() {
    let seq = Sequencer::new(empty_grid(6), 6);
    assert_eq!(seq.current, 0);
    assert!(!seq.playing);
    assert_eq!(seq.gap_ms, 1000);
    assert!(!seq.random);
    assert_eq!(seq.volume, 100);
    assert_eq!(seq.row_size, 6);
    assert!(!seq.timer_armed);
    assert_eq!(seq.rows(), 1);
}

#[test]
fn sequential_advance_is_successor_modulo_length() {
    for len in 1..=24usize {
        for i in 0..len {
            assert_eq!(sequential_next(i, len), (i + 1) % len);
        }
        assert_eq!(sequential_next(len - 1, len), 0);
    }
    assert_eq!(sequential_next(6, 4), 3);
    assert_eq!(sequential_next(usize::MAX, 4), 0);
}

#[test]
fn advance_on_an_empty_grid_goes_back_to_zero() {
    assert_eq!(sequential_next(5, 0), 0);
    assert_eq!(next_index(true, 5, 0), 0);
    assert_eq!(next_index(false, 5, 0), 0);
    let mut seq = Sequencer::new(empty_grid(0), 6);
    seq.current = 3;
    seq.playing = true;
    seq.on_step_ended();
    assert_eq!(seq.on_gap_elapsed(), Command::Idle);
    assert_eq!(seq.current, 0);
}

#[test]
fn random_advance_never_repeats() {
    for len in [2usize, 3, 4, 6, 12, 120] {
        let mut current = 0usize;
        for _ in 0..10_000 {
            let next = next_index(true, current, len);
            assert!(next < len);
            assert_ne!(next, current);
            current = next;
        }
    }
    for len in 2..=8usize {
        for i in 0..len {
            for _ in 0..200 {
                let next = next_index(true, i, len);
                assert!(next < len);
                assert_ne!(next, i);
            }
        }
    }
}

#[test]
fn random_advance_on_one_cell_stays() {
    for _ in 0..100 {
        assert_eq!(next_index(true, 0, 1), 0);
    }
}

#[test]
fn random_advance_from_beyond_the_grid_lands_inside() {
    for _ in 0..1000 {
        assert!(next_index(true, 9, 4) < 4);
    }
}

#[test]
fn a_draw_that_differs_is_accepted() {
    assert_eq!(resolve_draw(2, 6, 5), Draw::Accept(5));
    assert_eq!(resolve_draw(2, 6, 0), Draw::Accept(0));
}

#[test]
fn a_draw_that_collides_is_redrawn_from_the_far_side() {
    assert_eq!(resolve_draw(2, 6, 2), Draw::Redraw { lo: 3, hi: 6 });
    assert_eq!(resolve_draw(3, 6, 3), Draw::Redraw { lo: 4, hi: 6 });
    assert_eq!(resolve_draw(4, 6, 4), Draw::Redraw { lo: 0, hi: 3 });
    assert_eq!(resolve_draw(5, 6, 5), Draw::Redraw { lo: 0, hi: 4 });
    assert_eq!(resolve_draw(0, 6, 0), Draw::Redraw { lo: 1, hi: 6 });
    assert_eq!(resolve_draw(2, 3, 2), Draw::Redraw { lo: 0, hi: 1 });
}

#[test]
fn a_collision_without_redraw_range_falls_back_to_the_successor() {
    assert_eq!(resolve_draw(1, 2, 1), Draw::Fallback(0));
    assert_eq!(resolve_draw(0, 1, 0), Draw::Fallback(0));
}

#[test]
fn play_cues_the_current_cell() {
    let mut grid = empty_grid(6);
    grid[0] = Some(sample("slam", 500_000));
    let mut seq = Sequencer::new(grid, 6);
    match seq.set_play(true) {
        Command::Start(Some(s)) => {
            assert_eq!(s.filepath, "/public/sounds/doors/slam.mp3");
            assert_eq!(s.duration_us, 500_000);
        }
        other => panic!("unexpected {:?}", other),
    }
    assert!(seq.playing);
    seq.current = 1;
    assert_eq!(seq.refresh(), Command::Start(None));
}

#[test]
fn play_from_beyond_the_grid_starts_at_the_first_cell() {
    let mut seq = Sequencer::new(empty_grid(4), 4);
    seq.current = 9;
    assert_eq!(seq.set_play(true), Command::Start(None));
    assert_eq!(seq.current, 0);
}

#[test]
fn pause_halts_and_drops_the_timer() {
    let mut seq = Sequencer::new(empty_grid(4), 4);
    seq.set_play(true);
    assert_eq!(seq.on_step_ended(), Command::Wait { delay_ms: 1000 });
    assert!(seq.timer_armed);
    assert_eq!(seq.set_play(false), Command::Stop { cancel_timer: true });
    assert!(!seq.timer_armed);
    assert!(!seq.playing);
    assert_eq!(seq.on_gap_elapsed(), Command::Idle);
    assert_eq!(seq.current, 0);
    assert_eq!(seq.set_play(false), Command::Stop { cancel_timer: false });
}

#[test]
fn the_gap_is_the_same_after_a_sample_and_after_silence() {
    let mut grid = empty_grid(4);
    grid[0] = Some(sample("slam", 500_000));
    let mut seq = Sequencer::new(grid, 4);
    seq.set_gap(750);
    seq.set_play(true);
    assert_eq!(seq.on_step_ended(), Command::Wait { delay_ms: 750 });
    assert_eq!(seq.on_gap_elapsed(), Command::Start(None));
    assert_eq!(seq.on_step_ended(), Command::Wait { delay_ms: 750 });
}

#[test]
fn end_to_end_loop_of_six_steps() {
    let mut grid = empty_grid(6);
    grid[0] = Some(sample("slam", 500_000));
    let mut seq = Sequencer::new(grid, 6);
    seq.set_gap(1000);
    let mut clock_us: u64 = 0;
    let mut command = seq.set_play(true);
    let mut visited = Vec::new();
    for step in 0..6usize {
        assert_eq!(seq.current, step);
        visited.push(seq.current);
        let playing_time = match &command {
            Command::Start(Some(s)) => s.duration_us,
            Command::Start(None) => 0,
            other => panic!("unexpected {:?}", other),
        };
        assert_eq!(playing_time, if step == 0 { 500_000 } else { 0 });
        clock_us += playing_time;
        match seq.on_step_ended() {
            Command::Wait { delay_ms } => {
                assert_eq!(delay_ms, 1000);
                clock_us += delay_ms * 1000;
            }
            other => panic!("unexpected {:?}", other),
        }
        command = seq.on_gap_elapsed();
        if step == 0 {
            assert_eq!(seq.current, 1);
            assert_eq!(clock_us, 1_500_000);
        }
    }
    assert_eq!(visited, vec![0, 1, 2, 3, 4, 5]);
    assert_eq!(seq.current, 0);
    assert_eq!(clock_us, 6_500_000);
    assert!(matches!(command, Command::Start(Some(_))));
}

#[test]
fn set_cell_is_bounds_checked() {
    let mut seq = Sequencer::new(empty_grid(4), 4);
    assert_eq!(seq.set_cell(4, Some(sample("slam", 1))), Command::Idle);
    assert!(!seq.is_cell_filled(4));
    assert_eq!(seq.set_cell(3, Some(sample("slam", 1))), Command::Stop { cancel_timer: false });
    assert!(seq.is_cell_filled(3));
    assert!(!seq.playing);
    assert_eq!(seq.set_cell(3, None), Command::Stop { cancel_timer: false });
    assert!(!seq.is_cell_filled(3));
}

#[test]
fn editing_the_playing_cell_cues_it_again() {
    let mut seq = Sequencer::new(empty_grid(4), 4);
    seq.set_play(true);
    match seq.set_cell(0, Some(sample("creak", 7))) {
        Command::Start(Some(s)) => assert_eq!(s.filename, "creak"),
        other => panic!("unexpected {:?}", other),
    }
    assert!(seq.playing);
}

#[test]
fn resize_on_the_sequencer_respects_the_bounds() {
    let mut seq = Sequencer::new(empty_grid(6), 6);
    assert_eq!(seq.resize(Operation::Dec), Command::Idle);
    assert_eq!(seq.grid.len(), 6);
    assert_eq!(seq.resize(Operation::Inc), Command::Stop { cancel_timer: false });
    assert_eq!(seq.grid.len(), 12);
    assert_eq!(seq.rows(), 2);
    let mut seq = Sequencer::new(empty_grid(120), 6);
    assert_eq!(seq.resize(Operation::Inc), Command::Idle);
    assert_eq!(seq.grid.len(), 120);
    assert_eq!(seq.rows(), 20);
}

#[test]
fn shrinking_under_the_playing_cell_restarts_at_the_first() {
    let mut seq = Sequencer::new(empty_grid(8), 4);
    seq.set_play(true);
    seq.select(6);
    assert_eq!(seq.resize(Operation::Dec), Command::Start(None));
    assert_eq!(seq.current, 0);
    assert_eq!(seq.grid.len(), 4);
}

#[test]
fn erase_empties_every_cell() {
    let mut grid = empty_grid(4);
    grid[2] = Some(sample("slam", 1));
    let mut seq = Sequencer::new(grid, 4);
    seq.erase();
    assert_eq!(seq.grid.len(), 4);
    assert!(!seq.is_cell_filled(2));
}

#[test]
fn load_takes_settings_and_grid_but_not_play_state() {
    let mut grid = empty_grid(8);
    grid[1] = Some(sample("creak", 3));
    let preset = Preset {
        id: "preset_ab12".to_string(),
        name: "Evening".to_string(),
        volume: 40,
        gap_duration: 2500,
        random_playback: true,
        grid_data: grid,
        created: 17,
    };
    let mut seq = Sequencer::new(empty_grid(4), 4);
    assert_eq!(seq.load_preset(&preset), Command::Stop { cancel_timer: false });
    assert!(!seq.playing);
    assert_eq!(seq.gap_ms, 2500);
    assert_eq!(seq.volume, 40);
    assert!(seq.random);
    assert_eq!(seq.grid.len(), 8);
    assert!(seq.is_cell_filled(1));
    seq.set_play(true);
    seq.select(1);
    assert!(matches!(seq.load_preset(&preset), Command::Start(Some(_))));
    assert!(seq.playing);
}

#[test]
fn clicking_a_cell_selects_it_and_previews_when_stopped() {
    let mut seq = Sequencer::new(empty_grid(4), 4);
    let (preview, command) = seq.click_cell(2, "/a.mp3".to_string(), true, false);
    assert_eq!(preview, PreviewCommand::Play("/a.mp3".to_string()));
    assert_eq!(command, Command::Stop { cancel_timer: false });
    assert_eq!(seq.current, 2);
    let (preview, _) = seq.click_cell(2, "/a.mp3".to_string(), false, true);
    assert_eq!(preview, PreviewCommand::Halt);
    let (preview, _) = seq.click_cell(3, String::new(), false, true);
    assert_eq!(preview, PreviewCommand::Idle);
    assert_eq!(seq.current, 3);
    seq.set_play(true);
    let (preview, command) = seq.click_cell(1, "/a.mp3".to_string(), true, false);
    assert_eq!(preview, PreviewCommand::Idle);
    assert_eq!(command, Command::Start(None));
    assert_eq!(seq.current, 1);
}

#[test]
fn preview_toggles_on_the_same_sample() {
    assert_eq!(toggle_preview("/a.mp3".to_string(), false, true), PreviewCommand::Halt);
    assert_eq!(
        toggle_preview("/a.mp3".to_string(), true, true),
        PreviewCommand::Play("/a.mp3".to_string())
    );
    assert_eq!(
        toggle_preview("/a.mp3".to_string(), false, false),
        PreviewCommand::Play("/a.mp3".to_string())
    );
}

#[test]
fn the_play_button_is_dead_while_the_scheduler_is_on() {
    let mut seq = Sequencer::new(empty_grid(4), 4);
    assert_eq!(seq.toggle_play(true), Command::Idle);
    assert!(!seq.playing);
    assert_eq!(seq.toggle_play(false), Command::Start(None));
    assert!(seq.playing);
    assert_eq!(seq.toggle_play(false), Command::Stop { cancel_timer: false });
    assert!(!seq.playing);
}

#[test]
fn settings_are_set_as_given() {
    let mut seq = Sequencer::new(empty_grid(4), 4);
    seq.toggle_random();
    assert!(seq.random);
    seq.toggle_random();
    assert!(!seq.random);
    seq.set_volume(35);
    assert_eq!(seq.volume, 35);
    seq.step_gap(Operation::Inc);
    assert_eq!(seq.gap_ms, 1500);
    seq.step_gap(Operation::Dec);
    seq.step_gap(Operation::Dec);
    assert_eq!(seq.gap_ms, 500);
    seq.step_gap(Operation::Dec);
    assert_eq!(seq.gap_ms, 0);
    seq.step_gap(Operation::Dec);
    assert_eq!(seq.gap_ms, 0);
    seq.set_gap(300);
    seq.step_gap(Operation::Dec);
    assert_eq!(seq.gap_ms, 300);
    seq.set_gap(u64::MAX - 10);
    seq.step_gap(Operation::Inc);
    assert_eq!(seq.gap_ms, u64::MAX - 10);
}

#[test]
fn rows_of_a_sequencer_without_row_size() {
    let seq = Sequencer::new(empty_grid(4), 0);
    assert_eq!(seq.rows(), 0);
}

#[test]
fn the_row_buttons_dim_at_the_bounds() {
    let seq = Sequencer::new(empty_grid(6), 6);
    assert!(seq.at_fewest_rows());
    assert!(!seq.at_most_rows());
    let seq = Sequencer::new(empty_grid(120), 6);
    assert!(!seq.at_fewest_rows());
    assert!(seq.at_most_rows());
    let seq = Sequencer::new(empty_grid(12), 4);
    assert!(!seq.at_fewest_rows());
    assert!(!seq.at_most_rows());
    let seq = Sequencer::new(empty_grid(12), 0);
    assert!(!seq.at_fewest_rows());
    assert!(!seq.at_most_rows());
}

#[test]
fn the_library_edits_the_cell_it_was_opened_for() {
    let mut seq = Sequencer::new(empty_grid(4), 4);
    let mut editor = soundboard::sequencer::CellEditor::new();
    assert_eq!(editor.editing, None);
    assert!(!editor.is_cell_filled(&seq));
    assert_eq!(editor.pick(&mut seq, Some(sample("slam", 1))), Command::Idle);
    assert_eq!(filled(&seq), 0);
    assert_eq!(editor.open(2, true), PreviewCommand::Idle);
    assert_eq!(editor.editing, Some(2));
    assert!(!editor.is_cell_filled(&seq));
    assert_eq!(editor.pick(&mut seq, Some(sample("slam", 1))), Command::Stop { cancel_timer: false });
    assert_eq!(editor.editing, None);
    assert!(seq.is_cell_filled(2));
    assert_eq!(editor.open(2, false), PreviewCommand::Halt);
    assert!(editor.is_cell_filled(&seq));
    assert_eq!(editor.pick(&mut seq, None), Command::Stop { cancel_timer: false });
    assert!(!seq.is_cell_filled(2));
    editor.open(9, true);
    assert!(!editor.is_cell_filled(&seq));
    assert_eq!(editor.pick(&mut seq, Some(sample("slam", 1))), Command::Idle);
    assert_eq!(filled(&seq), 0);
    editor.open(1, true);
    assert_eq!(editor.close(), PreviewCommand::Halt);
    assert_eq!(editor.editing, None);
}

fn filled(seq: &Sequencer) -> usize {
    soundboard::grid::filled_cells(&seq.grid)
}

#[test]
fn random_draws_vary() {
    let mut seen = Vec::new();
    for _ in 0..1000 {
        let next = next_index(true, 0, 120);
        if !seen.contains(&next) {
            seen.push(next);
        }
    }
    assert!(seen.len() > 10);
    assert!(seen.iter().any(|&i| i > 60));
}

#[test]
fn a_random_sequencer_never_plays_a_cell_twice_in_a_row() {
    let mut seq = Sequencer::new(empty_grid(6), 6);
    seq.toggle_random();
    seq.set_play(true);
    for _ in 0..10_000 {
        let before = seq.current;
        assert_eq!(seq.on_step_ended(), Command::Wait { delay_ms: 1000 });
        assert_eq!(seq.on_gap_elapsed(), Command::Start(None));
        assert_ne!(seq.current, before);
        assert!(seq.current < 6);
    }
}
