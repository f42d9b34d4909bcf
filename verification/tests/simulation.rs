use cosmostrix::cloud::{Cloud, CHANCE_SCALE};
use cosmostrix::droplet::Droplet;
use cosmostrix::frame::Frame;
use cosmostrix::runtime::{BoldMode, ColorMode, ColorScheme, ShadingMode};

fn test_cloud(color_mode: ColorMode) -> Cloud {
    Cloud::new(
        0,
        color_mode,
        false,
        ShadingMode::Random,
        BoldMode::Random,
        false,
        false,
        ColorScheme::Green,
        None,
    )
}

#[test]
fn droplet_head_advances_and_stops() {
    let mut d = Droplet::new();
    d.bound_col = 2;
    d.end_line = 9;
    d.length = 20;
    d.chars_per_sec_milli = 2000; // two glyphs per second
    d.activate(1000);
    // After one second, the head has crawled two lines.
    let freed = d.advance(2000, 20);
    assert!(!freed);
    assert_eq!(d.head_put_line, 2);
    assert!(d.is_head_crawling && d.is_alive);
    // The ordering invariant holds throughout.
    assert!(d.head_put_line <= d.end_line);
    // After five more seconds the head has reached its end line and
    // stopped, exactly once, recording the stop time.
    let _ = d.advance(7000, 20);
    assert_eq!(d.head_put_line, 9);
    assert!(!d.is_head_crawling);
    assert_eq!(d.head_stop_time, Some(7000));
    // Further advances never restart the head or move the stop time.
    let _ = d.advance(8000, 20);
    assert!(!d.is_head_crawling);
    assert_eq!(d.head_stop_time, Some(7000));
}

#[test]
fn droplet_dies_when_tail_catches_head() {
    let mut d = Droplet::new();
    d.bound_col = 0;
    d.end_line = 3;
    d.length = 2;
    d.chars_per_sec_milli = 1000;
    d.time_to_linger_ms = 0;
    d.activate(0);
    let mut now = 0u64;
    let mut saw_death = false;
    for _ in 0..20 {
        now += 1000;
        let _ = d.advance(now, 8);
        // Mimic the draw pass's bookkeeping of the drawn tail position.
        d.tail_cur_line = d.tail_put_line.unwrap_or(0);
        assert!(d.tail_put_line.map_or(0, |t| t) <= d.head_put_line);
        if !d.is_alive {
            saw_death = true;
            break;
        }
    }
    assert!(saw_death);
    assert_eq!(d.tail_put_line, Some(d.head_put_line));
}

#[test]
fn droplet_no_op_tick_carries_remainder() {
    let mut d = Droplet::new();
    d.end_line = 9;
    d.length = 20;
    d.chars_per_sec_milli = 1000; // one glyph per second
    d.activate(0);
    // 400 ms is less than a glyph: no movement, remainder carried.
    let _ = d.advance(400, 20);
    assert_eq!(d.head_put_line, 0);
    assert_eq!(d.advance_rem_micro, 400_000);
    // Another 600 ms completes one glyph exactly.
    let _ = d.advance(1000, 20);
    assert_eq!(d.head_put_line, 1);
    assert_eq!(d.advance_rem_micro, 0);
}

#[test]
fn fill_droplet_full_height_when_chances_off() {
    let mut cloud = test_cloud(ColorMode::Color256);
    cloud.reset(20, 12, 0);
    cloud.die_early_ppm = 0;
    cloud.short_ppm = 0;
    for col in 0..10u16 {
        let mut d = Droplet::new();
        cloud.fill_droplet(&mut d, col);
        assert_eq!(d.end_line, 11);
        assert_eq!(d.length, 12);
    }
}

#[test]
fn fill_droplet_dies_early_when_forced() {
    let mut cloud = test_cloud(ColorMode::Color256);
    cloud.reset(20, 12, 0);
    cloud.die_early_ppm = CHANCE_SCALE;
    for col in 0..32u16 {
        let mut d = Droplet::new();
        cloud.fill_droplet(&mut d, col % 20);
        assert!(d.end_line <= 10);
    }
}

#[test]
fn columns_never_exceed_their_cap() {
    let mut cloud = test_cloud(ColorMode::Color256);
    cloud.init_chars(vec!['x', 'y']);
    cloud.reset(10, 4, 0);
    cloud.set_chars_per_sec(1_000_000);
    cloud.set_droplet_density(100_000);
    let mut frame = Frame::new(10, 4, cloud.palette.bg);
    for t in 1..200u64 {
        cloud.rain(&mut frame, t * 40);
        for cs in cloud.col_stat.iter() {
            assert!(cs.num_droplets <= cloud.max_droplets_per_column);
        }
    }
}

#[test]
fn reset_layout_is_deterministic() {
    let mut a = test_cloud(ColorMode::Color256);
    let mut b = test_cloud(ColorMode::Color256);
    a.reset(37, 11, 5);
    b.reset(37, 11, 99);
    assert_eq!(a.droplets.len(), b.droplets.len());
    assert_eq!(a.num_droplets, b.num_droplets);
    assert_eq!(a.col_stat.len(), b.col_stat.len());
    assert_eq!(a.color_map.len(), b.color_map.len());
    assert_eq!(a.glitch_map.len(), b.glitch_map.len());
    // Resetting the same orchestrator twice keeps the same layout too.
    a.reset(37, 11, 200);
    assert_eq!(a.col_stat.len(), b.col_stat.len());
    assert_eq!(a.color_map.len(), b.color_map.len());
}

#[test]
fn one_second_at_high_speed_spawns_or_completes() {
    let mut cloud = test_cloud(ColorMode::Color256);
    cloud.init_chars(vec!['a', 'b', 'c']);
    cloud.reset(10, 4, 0);
    // 1000 glyphs per second forces near-instant advance.
    cloud.set_chars_per_sec(1_000_000);
    cloud.set_droplet_density(100_000);
    let mut frame = Frame::new(10, 4, cloud.palette.bg);
    let mut saw_live = false;
    for t in 1..=20u64 {
        cloud.rain(&mut frame, t * 50);
        if cloud.droplets.iter().any(|d| d.is_alive) {
            saw_live = true;
        }
    }
    let still_hosting = cloud.col_stat.iter().any(|cs| cs.num_droplets >= 1);
    // After one simulated second either a column is hosting a droplet
    // or a droplet has already completed its lifecycle.
    assert!(still_hosting || saw_live);
    assert!(saw_live);
}

#[test]
fn monochrome_rain_leaves_no_foreground() {
    let mut cloud = test_cloud(ColorMode::Mono);
    cloud.init_chars(vec!['a', 'b', 'c']);
    cloud.reset(8, 6, 0);
    cloud.set_chars_per_sec(100_000);
    cloud.set_droplet_density(50_000);
    cloud.set_shading_mode(ShadingMode::DistanceFromHead);
    let mut frame = Frame::new(8, 6, cloud.palette.bg);
    for t in 1..=40u64 {
        cloud.rain(&mut frame, t * 100);
    }
    for cell in frame.cells.iter() {
        assert_eq!(cell.fg, None);
    }
}

#[test]
fn pause_shifts_clocks_by_the_paused_delta() {
    let mut cloud = test_cloud(ColorMode::Color256);
    cloud.init_chars(vec!['a', 'b']);
    cloud.reset(10, 8, 0);
    cloud.set_chars_per_sec(10_000);
    cloud.set_droplet_density(100_000);
    let mut frame = Frame::new(10, 8, cloud.palette.bg);
    cloud.rain(&mut frame, 500);
    cloud.rain(&mut frame, 600);
    let before: Vec<Option<u64>> =
        cloud.droplets.iter().filter(|d| d.is_alive).map(|d| d.last_time).collect();
    assert!(!before.is_empty());
    let spawn_before = cloud.last_spawn_time;
    // Pause at 1000, resume at 1500: a simulated 500 ms delay.
    cloud.toggle_pause(1000);
    assert!(cloud.pause);
    cloud.rain(&mut frame, 1200); // a paused tick changes nothing
    cloud.toggle_pause(1500);
    assert!(!cloud.pause);
    let after: Vec<Option<u64>> =
        cloud.droplets.iter().filter(|d| d.is_alive).map(|d| d.last_time).collect();
    assert_eq!(before.len(), after.len());
    for (b, a) in before.iter().zip(after.iter()) {
        assert_eq!(a.unwrap(), b.unwrap() + 500);
    }
    assert_eq!(cloud.last_spawn_time, spawn_before + 500);
}
