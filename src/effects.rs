use vstd::prelude::*;
use crate::rgb::{all_keys, col_of, row_of, KeyColour, KeyboardData, COL_COUNT, KEY_COUNT, ROW_COUNT};

verus! {

/// Minimum time between two rendered frames (about 30 frames a second).
pub const ANIMATIONS_DELAY_MS: u128 = 33;

/// Direction of a colour gradient.
#[derive(Clone, Copy, Debug, PartialEq, Eq, Structural)]
pub enum EffectDir {
    Vertical,
    Horizontal,
    Diagonal,
    Circular,
}

// -- Static effect --

/// One colour on every key, forever.
#[derive(Clone, Copy, Debug)]
pub struct StaticEffect {
    pub kbd: KeyboardData,
}

impl StaticEffect {
    pub fn new(red: u8, green: u8, blue: u8) -> (r: StaticEffect)
        ensures
            r.kbd@.len() == KEY_COUNT,
            all_keys(r.kbd@, KeyColour { red, green, blue }),
    {
        let mut k = KeyboardData::new();
        k.set_kbd_colour(red, green, blue);
        StaticEffect { kbd: k }
    }

    /// The next frame: always the same one.
    pub fn update(&mut self) -> (r: KeyboardData)
        ensures
            *final(self) == *old(self),
            r == old(self).kbd,
    {
        self.kbd
    }
}

// -- Blend (gradient) effect --

/// Channel value at step `k` of `n` on the way from `c1` to `c2`:
/// `c1 + (c2 - c1) * k / n`, truncated.
pub open spec fn blend_channel(c1: u8, c2: u8, k: int, n: int) -> int {
    (c1 * (n - k) + c2 * k) / n
}

pub open spec fn blend_colour(from: KeyColour, to: KeyColour, k: int, n: int) -> KeyColour {
    KeyColour {
        red: blend_channel(from.red, to.red, k, n) as u8,
        green: blend_channel(from.green, to.green, k, n) as u8,
        blue: blend_channel(from.blue, to.blue, k, n) as u8,
    }
}

/// The gradient frame: with `horizontal`, column `c` gets ratio `(c + 1) / 15`;
/// otherwise row `r` gets ratio `(r + 1) / 6`.
pub open spec fn blend_frame(from: KeyColour, to: KeyColour, horizontal: bool) -> Seq<KeyColour> {
    Seq::new(
        KEY_COUNT as nat,
        |i: int|
            if horizontal {
                blend_colour(from, to, col_of(i) + 1, COL_COUNT as int)
            } else {
                blend_colour(from, to, row_of(i) + 1, ROW_COUNT as int)
            },
    )
}

fn blend_channel_at(c1: u8, c2: u8, k: u32, n: u32) -> (r: u8)
    requires
        1 <= k <= n <= 15,
    ensures
        r as int == blend_channel(c1, c2, k as int, n as int),
{
    proof {
        assert(c1 * (n - k) <= 255 * 15 && c2 * k <= 255 * 15) by (nonlinear_arith)
            requires
                c1 <= 255,
                c2 <= 255,
                k <= n <= 15,
        ;
    }
    let num: u32 = (c1 as u32) * (n - k) + (c2 as u32) * k;
    proof {
        assert(num <= 255 * n) by (nonlinear_arith)
            requires
                num == c1 * (n - k) + c2 * k,
                c1 <= 255,
                c2 <= 255,
                k <= n,
        ;
        assert(num / n <= 255) by (nonlinear_arith)
            requires
                num <= 255 * n,
                n >= 1,
        ;
    }
    (num / n) as u8
}

/// A fixed colour gradient between two colours.
#[derive(Clone, Copy, Debug)]
pub struct BlendEffect {
    pub kbd: KeyboardData,
}

impl BlendEffect {
    /// Diagonal and circular gradients are not supported and fall back to vertical.
    pub fn new(r1: u8, g1: u8, b1: u8, r2: u8, g2: u8, b2: u8, dir: EffectDir) -> (r: BlendEffect)
        ensures
            r.kbd@ == blend_frame(
                KeyColour { red: r1, green: g1, blue: b1 },
                KeyColour { red: r2, green: g2, blue: b2 },
                dir == EffectDir::Horizontal,
            ),
    {
        let ghost from = KeyColour { red: r1, green: g1, blue: b1 };
        let ghost to = KeyColour { red: r2, green: g2, blue: b2 };
        let mut k = KeyboardData::new();
        match dir {
            EffectDir::Horizontal => {
                let mut x: usize = 0;
                while x < COL_COUNT
                    invariant
                        x <= COL_COUNT,
                        k@.len() == KEY_COUNT,
                        from == (KeyColour { red: r1, green: g1, blue: b1 }),
                        to == (KeyColour { red: r2, green: g2, blue: b2 }),
                        forall|i: int|
                            #![trigger k@[i]]
                            0 <= i < KEY_COUNT && col_of(i) < x ==> k@[i] == blend_colour(
                                from,
                                to,
                                col_of(i) + 1,
                                COL_COUNT as int,
                            ),
                    decreases COL_COUNT - x,
                {
                    let n: u32 = COL_COUNT as u32;
                    let s: u32 = (x + 1) as u32;
                    let rr = blend_channel_at(r1, r2, s, n);
                    let gg = blend_channel_at(g1, g2, s, n);
                    let bb = blend_channel_at(b1, b2, s, n);
                    assert(KeyColour { red: rr, green: gg, blue: bb } == blend_colour(
                        from,
                        to,
                        x + 1,
                        COL_COUNT as int,
                    ));
                    k.set_col_colour(x, rr, gg, bb);
                    x = x + 1;
                }
                assert(k@ =~= blend_frame(from, to, true));
            },
            _ => {
                let mut x: usize = 0;
                while x < ROW_COUNT
                    invariant
                        x <= ROW_COUNT,
                        k@.len() == KEY_COUNT,
                        from == (KeyColour { red: r1, green: g1, blue: b1 }),
                        to == (KeyColour { red: r2, green: g2, blue: b2 }),
                        forall|i: int|
                            #![trigger k@[i]]
                            0 <= i < KEY_COUNT && row_of(i) < x ==> k@[i] == blend_colour(
                                from,
                                to,
                                row_of(i) + 1,
                                ROW_COUNT as int,
                            ),
                    decreases ROW_COUNT - x,
                {
                    let n: u32 = ROW_COUNT as u32;
                    let s: u32 = (x + 1) as u32;
                    let rr = blend_channel_at(r1, r2, s, n);
                    let gg = blend_channel_at(g1, g2, s, n);
                    let bb = blend_channel_at(b1, b2, s, n);
                    assert(KeyColour { red: rr, green: gg, blue: bb } == blend_colour(
                        from,
                        to,
                        x + 1,
                        ROW_COUNT as int,
                    ));
                    k.set_row_colour(x, rr, gg, bb);
                    x = x + 1;
                }
                assert(k@ =~= blend_frame(from, to, false));
            },
        }
        BlendEffect { kbd: k }
    }

    /// The next frame: always the precomputed gradient.
    pub fn update(&mut self) -> (r: KeyboardData)
        ensures
            *final(self) == *old(self),
            r == old(self).kbd,
    {
        self.kbd
    }
}


// -- Breath (pulsing) effect --

/// The phase that a breathing cycle is in after a tick at time `now`: the phase
/// moves on (0 off, 1 rising, 2 on, 3 falling, then 0 again) whenever the time,
/// less one cycle, is at least one cycle.
pub open spec fn breath_phase_after(phase: int, cycle_ms: int, now: int) -> int {
    if now - cycle_ms >= cycle_ms {
        (phase + 1) % 4
    } else {
        phase
    }
}

/// How far a channel level moves in one tick. Levels are kept multiplied by the
/// cycle duration, so the step `target / (cycle_ms / ANIMATIONS_DELAY_MS)` is exact.
pub open spec fn breath_step(target: int) -> int {
    target * ANIMATIONS_DELAY_MS as int
}

/// A channel level after one tick in `phase`: it rises in phase 1, falls in phase
/// 3 and holds otherwise; it stays within the range of `i64`.
pub open spec fn breath_level_after(level: int, target: int, phase: int) -> int {
    if phase == 1 {
        if level + breath_step(target) > i64::MAX {
            i64::MAX as int
        } else {
            level + breath_step(target)
        }
    } else if phase == 3 {
        if level - breath_step(target) < i64::MIN {
            i64::MIN as int
        } else {
            level - breath_step(target)
        }
    } else {
        level
    }
}

/// The channel value shown for a level: the level divided by the cycle duration,
/// truncated and saturated to 0..=255.
pub open spec fn breath_shown(level: int, cycle_ms: int) -> int {
    if level <= 0 {
        0
    } else if level / cycle_ms > 255 {
        255
    } else {
        level / cycle_ms
    }
}

/// A colour that fades in and out over a cycle.
#[derive(Clone, Copy, Debug)]
pub struct BreathEffect {
    pub kbd: KeyboardData,
    cycle_ms: u32,
    curr_step: u8,
    targ_red: u8,
    targ_green: u8,
    targ_blue: u8,
    level_red: i64,
    level_green: i64,
    level_blue: i64,
}

impl BreathEffect {
    pub closed spec fn wf(&self) -> bool {
        &&& self.cycle_ms > 0
        &&& self.curr_step < 4
    }

    /// Length of one phase, in milliseconds.
    pub closed spec fn cycle(&self) -> int {
        self.cycle_ms as int
    }

    /// Current phase: 0 off, 1 rising, 2 on, 3 falling.
    pub closed spec fn phase(&self) -> int {
        self.curr_step as int
    }

    /// The colour that the effect rises to.
    pub closed spec fn target(&self) -> KeyColour {
        KeyColour { red: self.targ_red, green: self.targ_green, blue: self.targ_blue }
    }

    /// The frame that the last tick produced.
    pub closed spec fn current_frame(&self) -> KeyboardData {
        self.kbd
    }

    /// Channel levels, multiplied by the cycle duration.
    pub closed spec fn levels(&self) -> (int, int, int) {
        (self.level_red as int, self.level_green as int, self.level_blue as int)
    }

    /// `next` is this effect after one tick at time `now`.
    pub open spec fn steps_to(&self, next: &BreathEffect, now: u128) -> bool {
        let p = breath_phase_after(self.phase(), self.cycle(), now as int);
        let (r, g, b) = self.levels();
        let t = self.target();
        let (r2, g2, b2) = next.levels();
        &&& next.wf()
        &&& next.cycle() == self.cycle()
        &&& next.target() == t
        &&& next.phase() == p
        &&& r2 == breath_level_after(r, t.red as int, p)
        &&& g2 == breath_level_after(g, t.green as int, p)
        &&& b2 == breath_level_after(b, t.blue as int, p)
        &&& next.current_frame()@.len() == KEY_COUNT
        &&& all_keys(
            next.current_frame()@,
            KeyColour {
                red: breath_shown(r2, self.cycle()) as u8,
                green: breath_shown(g2, self.cycle()) as u8,
                blue: breath_shown(b2, self.cycle()) as u8,
            },
        )
    }

    /// Starts off (black), in phase 0.
    pub fn new(red: u8, green: u8, blue: u8, cycle_duration_ms: u32) -> (r: BreathEffect)
        requires
            cycle_duration_ms > 0,
        ensures
            r.wf(),
            r.cycle() == cycle_duration_ms,
            r.phase() == 0,
            r.target() == (KeyColour { red, green, blue }),
            r.levels() == (0int, 0int, 0int),
            r.current_frame()@.len() == KEY_COUNT,
            all_keys(r.current_frame()@, KeyColour { red: 0, green: 0, blue: 0 }),
    {
        let mut k = KeyboardData::new();
        k.set_kbd_colour(0, 0, 0);
        BreathEffect {
            kbd: k,
            cycle_ms: cycle_duration_ms,
            curr_step: 0,
            targ_red: red,
            targ_green: green,
            targ_blue: blue,
            level_red: 0,
            level_green: 0,
            level_blue: 0,
        }
    }

    fn level_after(level: i64, target: u8, phase: u8) -> (r: i64)
        ensures
            r as int == breath_level_after(level as int, target as int, phase as int),
    {
        let step: i64 = (target as i64) * 33;
        if phase == 1 {
            if level > i64::MAX - step {
                i64::MAX
            } else {
                level + step
            }
        } else if phase == 3 {
            if level < i64::MIN + step {
                i64::MIN
            } else {
                level - step
            }
        } else {
            level
        }
    }

    fn shown(level: i64, cycle_ms: u32) -> (r: u8)
        requires
            cycle_ms > 0,
        ensures
            r as int == breath_shown(level as int, cycle_ms as int),
    {
        if level <= 0 {
            0
        } else {
            let q: u64 = (level as u64) / (cycle_ms as u64);
            if q > 255 {
                255
            } else {
                q as u8
            }
        }
    }

    /// Advances the phase and the levels by one tick at time `now_ms`, and returns
    /// the frame that shows them.
    pub fn update(&mut self, now_ms: u128) -> (r: KeyboardData)
        requires
            old(self).wf(),
        ensures
            old(self).steps_to(final(self), now_ms),
            r == final(self).current_frame(),
    {
        let cycle: u128 = self.cycle_ms as u128;
        if now_ms >= cycle && now_ms - cycle >= cycle {
            self.curr_step = self.curr_step + 1;
            if self.curr_step == 4 {
                self.curr_step = 0;
            }
        }
        self.level_red = BreathEffect::level_after(self.level_red, self.targ_red, self.curr_step);
        self.level_green = BreathEffect::level_after(self.level_green, self.targ_green, self.curr_step);
        self.level_blue = BreathEffect::level_after(self.level_blue, self.targ_blue, self.curr_step);
        let red = BreathEffect::shown(self.level_red, self.cycle_ms);
        let green = BreathEffect::shown(self.level_green, self.cycle_ms);
        let blue = BreathEffect::shown(self.level_blue, self.cycle_ms);
        self.kbd.set_kbd_colour(red, green, blue);
        self.kbd
    }
}


// -- Effects and their composition --

/// Any effect that the manager can stack.
#[derive(Clone, Copy, Debug)]
pub enum Effect {
    Static(StaticEffect),
    Blend(BlendEffect),
    Breath(BreathEffect),
}

impl Effect {
    pub open spec fn wf(&self) -> bool {
        match self {
            Effect::Breath(b) => b.wf(),
            _ => true,
        }
    }

    /// The frame that the effect last produced.
    pub open spec fn frame(&self) -> Seq<KeyColour> {
        match self {
            Effect::Static(e) => e.kbd@,
            Effect::Blend(e) => e.kbd@,
            Effect::Breath(e) => e.current_frame()@,
        }
    }

    /// `next` is this effect after one tick at time `now`: static and blend
    /// effects stay as they are, a breathing effect moves on.
    pub open spec fn steps_to(&self, next: &Effect, now: u128) -> bool {
        match (self, next) {
            (Effect::Breath(a), Effect::Breath(b)) => a.steps_to(b, now),
            (Effect::Breath(_), _) => false,
            _ => *next == *self,
        }
    }

    /// Produces the next frame and advances the effect's own state.
    pub fn update(&mut self, now_ms: u128) -> (r: KeyboardData)
        requires
            old(self).wf(),
        ensures
            final(self).wf(),
            old(self).steps_to(final(self), now_ms),
            r@ == final(self).frame(),
    {
        match self {
            Effect::Static(e) => e.update(),
            Effect::Blend(e) => e.update(),
            Effect::Breath(e) => e.update(now_ms),
        }
    }
}

/// Where a finished frame is sent to be shown.
pub trait RenderSink {
    fn render(&mut self, frame: &KeyboardData);
}

/// The mask that a push adds on top of `masks`: the first layer owns every key;
/// later, each enabled key goes to the new layer and the others keep their owner.
pub open spec fn pushed_mask(masks: Seq<Seq<usize>>, enabled: Seq<bool>) -> Seq<usize> {
    if masks.len() == 0 {
        Seq::new(KEY_COUNT as nat, |k: int| 0usize)
    } else {
        Seq::new(
            KEY_COUNT as nat,
            |k: int|
                if enabled[k] {
                    masks.len() as usize
                } else {
                    masks.last()[k]
                },
        )
    }
}

/// Layer history after a push.
pub open spec fn push_masks(masks: Seq<Seq<usize>>, enabled: Seq<bool>) -> Seq<Seq<usize>> {
    masks.push(pushed_mask(masks, enabled))
}

/// A stack after a pop: the top entry goes, and an empty stack stays empty.
pub open spec fn pop_top<T>(s: Seq<T>) -> Seq<T> {
    if s.len() == 0 {
        s
    } else {
        s.drop_last()
    }
}

/// Whether a frame is due at `now`, the last one having been shown at `last`.
pub open spec fn frame_due(last: u128, now: u128) -> bool {
    now >= last && now - last >= ANIMATIONS_DELAY_MS
}

/// A stack of effects, each owning some keys, merged into one frame at a fixed rate.
pub struct EffectManager {
    layer_history: Vec<[usize; 90]>,
    effects: Vec<Effect>,
    last_update_time: u128,
    combined: KeyboardData,
}

impl EffectManager {
    /// The stacked effects, bottom first.
    pub closed spec fn layers(&self) -> Seq<Effect> {
        self.effects@
    }

    /// One mask per layer: entry `k` of a mask is the layer that owns key `k`.
    pub closed spec fn masks(&self) -> Seq<Seq<usize>> {
        self.layer_history@.map_values(|m: [usize; 90]| m@)
    }

    /// When the last frame was shown, in milliseconds.
    pub closed spec fn last_update(&self) -> u128 {
        self.last_update_time
    }

    /// The last merged frame.
    pub closed spec fn combined_frame(&self) -> KeyboardData {
        self.combined
    }

    pub closed spec fn wf(&self) -> bool {
        &&& self.layer_history@.len() == self.effects@.len()
        &&& forall|i: int| 0 <= i < self.effects@.len() ==> (#[trigger] self.effects@[i]).wf()
        &&& forall|i: int, k: int|
            0 <= i < self.layer_history@.len() && 0 <= k < KEY_COUNT
                ==> #[trigger] self.layer_history@[i]@[k] <= i
    }

    /// `next` is this manager after a tick at `now` that rendered a frame: every
    /// layer moved on once, the masks stayed, and each key of the merged frame
    /// comes from the layer that the top mask gives it.
    pub open spec fn ticked_to(&self, next: &EffectManager, now: u128) -> bool {
        &&& next.masks() == self.masks()
        &&& next.layers().len() == self.layers().len()
        &&& forall|i: int|
            0 <= i < self.layers().len() ==> #[trigger] self.layers()[i].steps_to(
                &next.layers()[i],
                now,
            )
        &&& next.last_update() == now
        &&& next.combined_frame()@.len() == KEY_COUNT
        &&& forall|k: int|
            0 <= k < KEY_COUNT ==> #[trigger] next.combined_frame()@[k] == next.layers()[next.masks().last()[k] as int].frame()[k]
    }

    /// The layer history holds one mask per stacked effect, each mask covers every
    /// key and names a layer of the stack.
    pub proof fn lemma_stacks_aligned(&self)
        requires
            self.wf(),
        ensures
            self.masks().len() == self.layers().len(),
            forall|i: int, k: int|
                0 <= i < self.masks().len() && 0 <= k < KEY_COUNT ==> #[trigger] self.masks()[i][k]
                    < self.layers().len(),
            forall|i: int| 0 <= i < self.masks().len() ==> (#[trigger] self.masks()[i]).len() == KEY_COUNT,
    {
        assert forall|i: int, k: int|
            0 <= i < self.masks().len() && 0 <= k < KEY_COUNT implies #[trigger] self.masks()[i][k]
                < self.layers().len() by {
            assert(self.layer_history@[i]@[k] <= i);
        }
    }

    /// Reads the wall clock, in milliseconds since the Unix epoch.
    /// Relies on std's `SystemTime::now` and `duration_since(UNIX_EPOCH)`; a clock
    /// set before the epoch reads as 0. Nothing is promised of the value.
    #[verifier::external_body]
    fn get_millis() -> (r: u128) {
        match std::time::SystemTime::now().duration_since(std::time::UNIX_EPOCH) {
            Ok(d) => d.as_millis(),
            Err(_) => 0,
        }
    }

    /// An empty stack, with the clock read as the time of the last frame.
    pub fn new() -> (r: EffectManager)
        ensures
            r.wf(),
            r.layers().len() == 0,
            r.masks().len() == 0,
            r.combined_frame()@.len() == KEY_COUNT,
            all_keys(r.combined_frame()@, KeyColour { red: 0, green: 0, blue: 0 }),
    {
        let r = EffectManager {
            layer_history: Vec::new(),
            effects: Vec::new(),
            last_update_time: EffectManager::get_millis(),
            combined: KeyboardData::new(),
        };
        assert(r.masks() =~= Seq::<Seq<usize>>::empty());
        r
    }

    /// Number of stacked effects.
    pub fn get_effect_layer_count(&mut self) -> (r: usize)
        ensures
            *final(self) == *old(self),
            r == old(self).layers().len(),
    {
        self.effects.len()
    }

    /// When the last frame was shown, in milliseconds.
    pub fn last_update_time(&self) -> (r: u128)
        ensures
            r == self.last_update(),
    {
        self.last_update_time
    }

    /// The last merged frame.
    pub fn combined(&self) -> (r: KeyboardData)
        ensures
            r == self.combined_frame(),
    {
        self.combined
    }

    /// Stacks an effect on top. The first effect owns every key; a later one
    /// takes the keys flagged in `enabled_keys` and leaves the rest to their owners.
    pub fn push_effect(&mut self, new_effect: Effect, enabled_keys: &[bool; 90])
        requires
            old(self).wf(),
            new_effect.wf(),
        ensures
            final(self).wf(),
            final(self).layers() == old(self).layers().push(new_effect),
            final(self).masks() == push_masks(old(self).masks(), enabled_keys@),
            final(self).last_update() == old(self).last_update(),
            final(self).combined_frame() == old(self).combined_frame(),
    {
        let ghost old_masks = self.masks();
        self.effects.push(new_effect);
        if self.layer_history.len() == 0 {
            self.layer_history.push([0usize; 90]);
            assert(self.layer_history@[0]@ =~= pushed_mask(old_masks, enabled_keys@));
        } else {
            let new_layer_id: usize = self.effects.len() - 1;
            let mut mask: [usize; 90] = self.layer_history[self.layer_history.len() - 1];
            let ghost prev = mask@;
            let mut x: usize = 0;
            while x < KEY_COUNT
                invariant
                    x <= KEY_COUNT,
                    mask@.len() == KEY_COUNT,
                    forall|k: int|
                        #![trigger mask@[k]]
                        0 <= k < KEY_COUNT ==> mask@[k] == if k < x && enabled_keys@[k] {
                            new_layer_id
                        } else {
                            prev[k]
                        },
                decreases KEY_COUNT - x,
            {
                if enabled_keys[x] {
                    mask[x] = new_layer_id;
                }
                x = x + 1;
            }
            assert(mask@ =~= pushed_mask(old_masks, enabled_keys@));
            self.layer_history.push(mask);
        }
        assert(self.masks() =~= push_masks(old_masks, enabled_keys@));
    }

    /// Removes the top effect and its mask; on an empty stack, does nothing.
    pub fn pop_effect(&mut self)
        requires
            old(self).wf(),
        ensures
            final(self).wf(),
            final(self).layers() == pop_top(old(self).layers()),
            final(self).masks() == pop_top(old(self).masks()),
            final(self).last_update() == old(self).last_update(),
            final(self).combined_frame() == old(self).combined_frame(),
    {
        let ghost old_masks = self.masks();
        self.effects.pop();
        self.layer_history.pop();
        assert(self.masks() =~= pop_top(old_masks));
    }

    /// One tick at time `now_ms`. Unless a frame is due and an effect is stacked,
    /// nothing changes and `None` comes back. Otherwise every effect produces its
    /// next frame, the frames are merged by the top mask, and the merged frame is
    /// returned to be shown.
    pub fn update_at(&mut self, now_ms: u128) -> (r: Option<KeyboardData>)
        requires
            old(self).wf(),
        ensures
            final(self).wf(),
            !frame_due(old(self).last_update(), now_ms) || old(self).layers().len() == 0 ==> {
                &&& r is None
                &&& *final(self) == *old(self)
            },
            frame_due(old(self).last_update(), now_ms) && old(self).layers().len() > 0 ==> {
                &&& old(self).ticked_to(final(self), now_ms)
                &&& r == Some(final(self).combined_frame())
            },
    {
        if now_ms < self.last_update_time || now_ms - self.last_update_time < ANIMATIONS_DELAY_MS {
            return None;
        }
        if self.layer_history.len() == 0 {
            return None;
        }
        let ghost old_effects = self.effects@;
        let ghost history = self.layer_history@;
        let mut keyboards: Vec<KeyboardData> = Vec::new();
        let mut i: usize = 0;
        while i < self.effects.len()
            invariant
                i <= self.effects@.len(),
                self.effects@.len() == old_effects.len(),
                self.layer_history@ == history,
                history.len() == old_effects.len(),
                forall|j: int, k: int|
                    0 <= j < history.len() && 0 <= k < KEY_COUNT ==> #[trigger] history[j]@[k] <= j,
                self.last_update_time == old(self).last_update_time,
                keyboards@.len() == i,
                forall|j: int| 0 <= j < old_effects.len() ==> (#[trigger] old_effects[j]).wf(),
                forall|j: int|
                    #![trigger self.effects@[j]]
                    0 <= j < i ==> old_effects[j].steps_to(&self.effects@[j], now_ms)
                        && self.effects@[j].wf() && keyboards@[j]@ == self.effects@[j].frame(),
                forall|j: int|
                    #![trigger self.effects@[j]]
                    i <= j < old_effects.len() ==> self.effects@[j] == old_effects[j],
            decreases old_effects.len() - i,
        {
            let frame = self.effects[i].update(now_ms);
            keyboards.push(frame);
            i = i + 1;
        }
        let top: [usize; 90] = self.layer_history[self.layer_history.len() - 1];
        assert(forall|k: int| 0 <= k < KEY_COUNT ==> top@[k] < keyboards@.len()) by {
            assert forall|k: int| 0 <= k < KEY_COUNT implies top@[k] < keyboards@.len() by {
                assert(history[history.len() - 1]@[k] <= history.len() - 1);
            }
        }
        let mut key_index: usize = 0;
        while key_index < KEY_COUNT
            invariant
                key_index <= KEY_COUNT,
                self.combined@.len() == KEY_COUNT,
                keyboards@.len() == self.effects@.len(),
                self.effects@.len() == old_effects.len(),
                self.layer_history@ == history,
                history.len() == old_effects.len(),
                top == history.last(),
                forall|j: int|
                    #![trigger self.effects@[j]]
                    0 <= j < old_effects.len() ==> old_effects[j].steps_to(&self.effects@[j], now_ms)
                        && self.effects@[j].wf(),
                top@.len() == KEY_COUNT,
                forall|k: int| 0 <= k < KEY_COUNT ==> top@[k] < keyboards@.len(),
                forall|j: int|
                    #![trigger keyboards@[j]]
                    0 <= j < keyboards@.len() ==> keyboards@[j]@ == self.effects@[j].frame(),
                forall|k: int|
                    #![trigger self.combined@[k]]
                    0 <= k < key_index ==> self.combined@[k] == keyboards@[top@[k] as int]@[k],
            decreases KEY_COUNT - key_index,
        {
            let layer_index = top[key_index];
            let colour = keyboards[layer_index].get_key_at(key_index);
            self.combined.set_key_at(key_index, colour);
            key_index = key_index + 1;
        }
        self.last_update_time = now_ms;
        assert(self.masks() =~= old(self).masks());
        Some(self.combined)
    }

    /// One tick at the current wall-clock time; a merged frame, if any, is sent to
    /// `handler`.
    pub fn update<H: RenderSink>(&mut self, handler: &mut H)
        requires
            old(self).wf(),
        ensures
            final(self).wf(),
            *final(self) == *old(self) || exists|now: u128| old(self).ticked_to(final(self), now),
            old(self).layers().len() == 0 ==> *final(self) == *old(self),
    {
        let now = EffectManager::get_millis();
        match self.update_at(now) {
            Some(frame) => handler.render(&frame),
            None => {},
        }
    }

    /// The mask on top of the layer history, if any effect is stacked.
    pub fn top_layer_mask(&self) -> (r: Option<[usize; 90]>)
        requires
            self.wf(),
        ensures
            self.masks().len() == 0 ==> r is None,
            self.masks().len() > 0 ==> r is Some && r->0@ == self.masks().last(),
    {
        let n = self.layer_history.len();
        if n == 0 {
            None
        } else {
            Some(self.layer_history[n - 1])
        }
    }
}

} // verus!
