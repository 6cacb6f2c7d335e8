use razer_effects::effects::{
    BlendEffect, BreathEffect, Effect, EffectDir, EffectManager, RenderSink, StaticEffect,
    ANIMATIONS_DELAY_MS,
};
use razer_effects::rgb::{KeyColour, KeyboardData, COL_COUNT, KEY_COUNT, ROW_COUNT};

struct CountingSink {
    renders: usize,
    last: Option<KeyboardData>,
}

impl RenderSink for CountingSink {
    fn render(&mut self, frame: &KeyboardData) {
        self.renders += 1;
        self.last = Some(*frame);
    }
}

fn solid(r: u8, g: u8, b: u8) -> Effect {
    Effect::Static(StaticEffect::new(r, g, b))
}

fn first_keys(n: usize) -> [bool; 90] {
    let mut keys = [false; 90];
    for k in 0..n {
        keys[k] = true;
    }
    keys
}

#[test]
fn push_with_no_keys_keeps_top_mask() {
    let mut m = EffectManager::new();
    m.push_effect(solid(1, 2, 3), &[true; 90]);
    m.push_effect(solid(4, 5, 6), &first_keys(20));
    let before = m.top_layer_mask().unwrap();
    m.push_effect(solid(7, 8, 9), &[false; 90]);
    assert_eq!(m.top_layer_mask().unwrap(), before);
    assert_eq!(m.get_effect_layer_count(), 3);
}

#[test]
fn push_with_all_keys_owns_every_key() {
    let mut m = EffectManager::new();
    m.push_effect(solid(1, 2, 3), &[false; 90]);
    m.push_effect(solid(4, 5, 6), &[true; 90]);
    assert_eq!(m.top_layer_mask().unwrap(), [1usize; 90]);
}

#[test]
fn first_push_owns_every_key_whatever_is_enabled() {
    let mut m = EffectManager::new();
    m.push_effect(solid(1, 2, 3), &[false; 90]);
    assert_eq!(m.top_layer_mask().unwrap(), [0usize; 90]);
}

#[test]
fn push_some_keys_only_moves_those() {
    let mut m = EffectManager::new();
    m.push_effect(solid(1, 2, 3), &[true; 90]);
    m.push_effect(solid(4, 5, 6), &first_keys(10));
    let mask = m.top_layer_mask().unwrap();
    for k in 0..KEY_COUNT {
        assert_eq!(mask[k], if k < 10 { 1 } else { 0 });
    }
}

#[test]
fn push_push_pop_restores_first_mask() {
    let mut m = EffectManager::new();
    m.push_effect(solid(9, 9, 9), &[true; 90]);
    m.push_effect(solid(1, 2, 3), &[true; 90]);
    let a_mask = m.top_layer_mask().unwrap();
    m.push_effect(solid(4, 5, 6), &first_keys(10));
    assert_ne!(m.top_layer_mask().unwrap(), a_mask);
    m.pop_effect();
    assert_eq!(m.top_layer_mask().unwrap(), a_mask);
    assert_eq!(a_mask, [1usize; 90]);
}

#[test]
fn layer_count_follows_pushes_and_pops() {
    let mut m = EffectManager::new();
    assert_eq!(m.get_effect_layer_count(), 0);
    m.pop_effect();
    m.pop_effect();
    assert_eq!(m.get_effect_layer_count(), 0);
    assert_eq!(m.top_layer_mask(), None);
    m.push_effect(solid(1, 1, 1), &[true; 90]);
    m.push_effect(solid(2, 2, 2), &[true; 90]);
    assert_eq!(m.get_effect_layer_count(), 2);
    m.pop_effect();
    assert_eq!(m.get_effect_layer_count(), 1);
    m.pop_effect();
    m.pop_effect();
    assert_eq!(m.get_effect_layer_count(), 0);
    m.push_effect(solid(3, 3, 3), &[true; 90]);
    assert_eq!(m.get_effect_layer_count(), 1);
}

#[test]
fn static_effect_repeats_its_frame() {
    let mut e = StaticEffect::new(10, 20, 30);
    let first = e.update();
    for _ in 0..50 {
        assert_eq!(e.update(), first);
    }
    for k in 0..KEY_COUNT {
        assert_eq!(first.get_key_at(k), KeyColour::new(10, 20, 30));
    }
}

#[test]
fn blend_vertical_black_to_white() {
    let mut e = BlendEffect::new(0, 0, 0, 255, 255, 255, EffectDir::Vertical);
    let f = e.update();
    for col in 0..COL_COUNT {
        assert_eq!(f.get_key_at(5 * COL_COUNT + col), KeyColour::new(255, 255, 255));
        assert_eq!(f.get_key_at(col), KeyColour::new(42, 42, 42));
        assert_eq!(f.get_key_at(2 * COL_COUNT + col), KeyColour::new(127, 127, 127));
    }
}

#[test]
fn blend_vertical_falling_channel() {
    let e = BlendEffect::new(200, 0, 60, 20, 0, 0, EffectDir::Vertical);
    // 200 + (20 - 200) * 1 / 6 = 170; 60 - 60 / 6 = 50
    assert_eq!(e.kbd.get_key_at(0), KeyColour::new(170, 0, 50));
    assert_eq!(e.kbd.get_key_at(89), KeyColour::new(20, 0, 0));
}

#[test]
fn blend_horizontal_by_column() {
    let e = BlendEffect::new(0, 0, 0, 150, 30, 255, EffectDir::Horizontal);
    for row in 0..ROW_COUNT {
        assert_eq!(e.kbd.get_key_at(row * COL_COUNT), KeyColour::new(10, 2, 17));
        assert_eq!(e.kbd.get_key_at(row * COL_COUNT + 14), KeyColour::new(150, 30, 255));
        assert_eq!(e.kbd.get_key_at(row * COL_COUNT + 4), KeyColour::new(50, 10, 85));
    }
}

#[test]
fn blend_diagonal_and_circular_fall_back_to_vertical() {
    let v = BlendEffect::new(5, 50, 250, 250, 5, 50, EffectDir::Vertical);
    let d = BlendEffect::new(5, 50, 250, 250, 5, 50, EffectDir::Diagonal);
    let c = BlendEffect::new(5, 50, 250, 250, 5, 50, EffectDir::Circular);
    assert_eq!(d.kbd, v.kbd);
    assert_eq!(c.kbd, v.kbd);
}

#[test]
fn breath_starts_black_and_rises_to_target() {
    // 330 ms per phase, 33 ms per tick: ten ticks of 10 to reach 100.
    let mut e = BreathEffect::new(100, 50, 0, 330);
    assert_eq!(e.kbd.get_key_at(0), KeyColour::new(0, 0, 0));
    // late enough for the phase to move from off to rising
    let f = e.update(660);
    assert_eq!(f.get_key_at(0), KeyColour::new(10, 5, 0));
    let mut prev = f.get_key_at(0);
    for _ in 0..9 {
        // too early for the phase to move: it keeps rising
        let k = e.update(100).get_key_at(0);
        assert!(k.red >= prev.red && k.green >= prev.green);
        assert!(k.red <= 100 && k.green <= 50);
        prev = k;
    }
    assert_eq!(prev, KeyColour::new(100, 50, 0));
    for k in 0..KEY_COUNT {
        assert_eq!(e.kbd.get_key_at(k), prev);
    }
}

#[test]
fn breath_phase_moves_on_every_late_tick() {
    // Once the clock is past twice the cycle, each tick moves to the next phase.
    let mut e = BreathEffect::new(100, 100, 100, 330);
    let now: u128 = 1_000_000;
    let shown: Vec<u8> = (0..8).map(|_| e.update(now).get_key_at(0).red).collect();
    // rising, on, falling, off, rising, on, falling, off
    assert_eq!(shown, vec![10, 10, 0, 0, 10, 10, 0, 0]);
}

#[test]
fn breath_saturates_at_full_brightness() {
    let mut e = BreathEffect::new(255, 255, 255, 33);
    let f = e.update(66);
    assert_eq!(f.get_key_at(0), KeyColour::new(255, 255, 255));
    let f = e.update(0);
    assert_eq!(f.get_key_at(0), KeyColour::new(255, 255, 255));
}

#[test]
fn update_twice_within_interval_is_noop() {
    let mut m = EffectManager::new();
    m.push_effect(solid(1, 2, 3), &[true; 90]);
    let t = m.last_update_time() + ANIMATIONS_DELAY_MS;
    let frame = m.update_at(t).expect("a frame is due");
    assert_eq!(m.last_update_time(), t);
    assert_eq!(m.combined(), frame);
    assert_eq!(m.update_at(t + 20), None);
    assert_eq!(m.last_update_time(), t);
    assert_eq!(m.combined(), frame);
    assert!(m.update_at(t + 33).is_some());
}

#[test]
fn update_before_interval_is_noop() {
    let mut m = EffectManager::new();
    m.push_effect(solid(1, 2, 3), &[true; 90]);
    let t = m.last_update_time();
    assert_eq!(m.update_at(t + 32), None);
    assert_eq!(m.update_at(t), None);
    assert_eq!(m.combined(), KeyboardData::new());
}

#[test]
fn empty_stack_never_renders() {
    let mut m = EffectManager::new();
    let mut sink = CountingSink { renders: 0, last: None };
    for _ in 0..20 {
        m.update(&mut sink);
    }
    assert_eq!(sink.renders, 0);
    let t = m.last_update_time();
    assert_eq!(m.update_at(t + 1000), None);
    assert_eq!(m.last_update_time(), t);
}

#[test]
fn update_renders_merged_frame_to_sink() {
    let mut m = EffectManager::new();
    m.push_effect(solid(255, 0, 0), &[true; 90]);
    m.push_effect(solid(0, 0, 255), &first_keys(10));
    let mut sink = CountingSink { renders: 0, last: None };
    // the clock read at construction is the last frame time; wait out one interval
    let start = m.last_update_time();
    while m.last_update_time() == start {
        m.update(&mut sink);
    }
    assert_eq!(sink.renders, 1);
    let frame = sink.last.unwrap();
    assert_eq!(frame, m.combined());
    for k in 0..KEY_COUNT {
        let want = if k < 10 { KeyColour::new(0, 0, 255) } else { KeyColour::new(255, 0, 0) };
        assert_eq!(frame.get_key_at(k), want);
    }
}

#[test]
fn merge_advances_hidden_layers_too() {
    let mut m = EffectManager::new();
    m.push_effect(Effect::Breath(BreathEffect::new(100, 100, 100, 330)), &[true; 90]);
    m.push_effect(solid(7, 7, 7), &[true; 90]);
    let t = m.last_update_time() + 1_000_000;
    let f = m.update_at(t).unwrap();
    assert_eq!(f.get_key_at(0), KeyColour::new(7, 7, 7));
    m.pop_effect();
    // the breathing layer ticked once while hidden (now rising), and once more here (now on)
    let f = m.update_at(t + 33).unwrap();
    assert_eq!(f.get_key_at(0), KeyColour::new(10, 10, 10));
}

#[test]
fn new_manager_reads_the_clock() {
    let m = EffectManager::new();
    // 2020-09-13, in milliseconds since the Unix epoch
    assert!(m.last_update_time() > 1_600_000_000_000);
    assert_eq!(m.combined(), KeyboardData::new());
}

#[test]
fn keyboard_rows_and_columns() {
    let mut k = KeyboardData::new();
    k.set_kbd_colour(1, 1, 1);
    k.set_row_colour(2, 9, 9, 9);
    k.set_col_colour(14, 5, 5, 5);
    k.set_key_at(0, KeyColour::new(3, 3, 3));
    for i in 0..KEY_COUNT {
        let want = if i == 0 {
            KeyColour::new(3, 3, 3)
        } else if i % COL_COUNT == 14 {
            KeyColour::new(5, 5, 5)
        } else if i / COL_COUNT == 2 {
            KeyColour::new(9, 9, 9)
        } else {
            KeyColour::new(1, 1, 1)
        };
        assert_eq!(k.get_key_at(i), want);
    }
}
