//! Floating labels whose characters scramble before they fade, and their
//! placement clear of the labels that are already showing.
use vstd::prelude::*;
use vstd::string::StrSliceExecFns;
use crate::color::{Color, color_transparent, palette, palette_spec};
use crate::fixed::{UNIT, fx_add, fx_sub};
use crate::random::{Entropy, pick_chance};
use crate::timer::{TimerSimple, TriggerRepeating, TimerStateSwitchBinary};
use crate::vec2::{Rect, Vec2};

verus! {

#[derive(Clone, Debug, PartialEq, Eq)]
pub struct InfoText {
    pub pos: Vec2,
    pub timer: TimerSimple,
    pub blinker: TimerStateSwitchBinary,
    pub char_switcher: TriggerRepeating,
    pub color: Color,
    pub text: Vec<char>,
    pub text_color_foreground: Vec<Color>,
    pub text_color_background: Vec<Color>,
}

/// The characters that a scrambled label can show.
pub open spec fn scramble_set() -> Seq<char> {
    " 0123456789!@#$%&*()-=+[]^~/;?><.,|abcdefghijklmnopqrstuvwxyzABCDEFGHIJKLMNOPQRSTUVWYXZ"@
}

/// Number of characters in the scramble set.
pub const SCRAMBLE_LEN: u64 = 87;

/// A color of the palette.
pub open spec fn in_palette(color: Color) -> bool {
    exists|index: u64| color == #[trigger] palette_spec(index)
}

/// A character of the scramble set.
pub open spec fn in_scramble_set(c: char) -> bool {
    scramble_set().contains(c)
}

/// Every character is the old one or one of the scramble set.
pub open spec fn text_scrambled(before: Seq<char>, after: Seq<char>) -> bool {
    &&& after.len() == before.len()
    &&& forall|k: int| 0 <= k < before.len() ==> #[trigger] after[k] == before[k] || in_scramble_set(after[k])
}

/// Every color is the given one or one of the palette.
pub open spec fn colors_scrambled(after: Seq<Color>, len: int, plain: Color) -> bool {
    &&& after.len() == len
    &&& forall|k: int| 0 <= k < len ==> #[trigger] after[k] == plain || in_palette(after[k])
}

/// The draws that one roll takes which starts after `at` draws: one for
/// the roll itself and, on a hit at `chance`, one more for the pick.
pub open spec fn roll_draws(e: Entropy, at: nat, chance: i64) -> nat {
    if pick_chance(e.word_after(at), chance) {
        2
    } else {
        1
    }
}

/// Scrambling rolls three times for each character: for the character,
/// for its foreground and for its background. The number of draws after
/// which the roll for the foreground starts, where the roll for the
/// character started after `at` draws.
pub open spec fn foreground_at(e: Entropy, at: nat) -> nat {
    at + roll_draws(e, at, 200_000)
}

/// The number of draws after which the roll for the background starts.
pub open spec fn background_at(e: Entropy, at: nat) -> nat {
    foreground_at(e, at) + roll_draws(e, foreground_at(e, at), 50_000)
}

/// The number of draws after which the `k`-th character is rolled for.
pub open spec fn slot_at(e: Entropy, k: nat) -> nat
    decreases k,
{
    if k == 0 {
        0
    } else {
        let at = slot_at(e, (k - 1) as nat);
        background_at(e, at) + roll_draws(e, background_at(e, at), 300_000)
    }
}

/// The character after a roll that starts after `at` draws: on a hit, at
/// one in five, the one that the next word selects from the scramble set.
pub open spec fn char_picked(e: Entropy, at: nat, c: char) -> char {
    if pick_chance(e.word_after(at), 200_000) {
        scramble_set()[(e.word_after(at + 1) % SCRAMBLE_LEN) as int]
    } else {
        c
    }
}

/// The foreground of a character whose rolls start after `at` draws: on
/// a hit, at one in twenty, a color of the palette, else the label's own.
pub open spec fn foreground_picked(e: Entropy, at: nat, plain: Color) -> Color {
    let from = foreground_at(e, at);
    if pick_chance(e.word_after(from), 50_000) {
        palette_spec(e.word_after(from + 1))
    } else {
        plain
    }
}

/// The background of a character whose rolls start after `at` draws: on
/// a hit, at three in ten, a color of the palette, else none.
pub open spec fn background_picked(e: Entropy, at: nat) -> Color {
    let from = background_at(e, at);
    if pick_chance(e.word_after(from), 300_000) {
        palette_spec(e.word_after(from + 1))
    } else {
        color_transparent()
    }
}

/// Rolls at `chance` and, on a hit, draws the word to pick with.
fn roll(entropy: &mut Entropy, chance: i64) -> (pick: Option<u64>)
    ensures
        pick is Some == pick_chance(old(entropy).word_after(0), chance),
        pick is Some ==> pick->0 == old(entropy).word_after(1),
        old(entropy).drawn(final(entropy), roll_draws(*old(entropy), 0, chance)),
{
    let hit: bool = entropy.chance(chance);
    proof {
        old(entropy).lemma_draw_after(old(entropy), entropy, 0);
    }
    if hit {
        let ghost mid = *entropy;
        let word: u64 = entropy.next_word();
        proof {
            old(entropy).lemma_draw_after(&mid, entropy, 1);
        }
        Some(word)
    } else {
        None
    }
}

fn scramble_char(index: u64) -> (c: char)
    ensures
        in_scramble_set(c),
        c == scramble_set()[(index % SCRAMBLE_LEN) as int],
{
    let set: &'static str =
        " 0123456789!@#$%&*()-=+[]^~/;?><.,|abcdefghijklmnopqrstuvwxyzABCDEFGHIJKLMNOPQRSTUVWYXZ";
    proof {
        reveal_strlit(" 0123456789!@#$%&*()-=+[]^~/;?><.,|abcdefghijklmnopqrstuvwxyzABCDEFGHIJKLMNOPQRSTUVWYXZ");
    }
    let at: usize = (index % SCRAMBLE_LEN) as usize;
    let c: char = set.get_char(at);
    assert(scramble_set()[at as int] == c);
    c
}

impl InfoText {
    /// A label is well formed when it has one color pair for each
    /// character.
    pub open spec fn wf(&self) -> bool {
        &&& self.text_color_foreground@.len() == self.text@.len()
        &&& self.text_color_background@.len() == self.text@.len()
    }

    /// A label without text, at the origin, that neither runs nor shows.
    pub fn blank() -> (label: InfoText)
        ensures
            label.wf(),
            label.text@.len() == 0,
            label.pos == (Vec2 { x: 0, y: 0 }),
            label.color == color_transparent(),
            label.timer == TimerSimple::new_stopped_spec(0),
            !label.blinker.state,
            label.blinker.trigger == TriggerRepeating::new_spec(0),
            label.char_switcher == TriggerRepeating::new_spec(0),
    {
        InfoText {
            pos: Vec2 { x: 0, y: 0 },
            timer: TimerSimple::new_stopped(0),
            blinker: TimerStateSwitchBinary::new(false, 0, 0),
            char_switcher: TriggerRepeating::new(0),
            color: color_transparent(),
            text: Vec::new(),
            text_color_foreground: Vec::new(),
            text_color_background: Vec::new(),
        }
    }

    /// A fresh label: it will live for 1.1 seconds, start to blink after
    /// 0.7 seconds and to scramble at the same time.
    pub fn new(pos: Vec2, text: &str, color: Color) -> (label: InfoText)
        requires
            text.is_ascii(),
        ensures
            label.wf(),
            label.pos == pos,
            label.color == color,
            label.text@ == text@,
            forall|k: int| 0 <= k < text@.len() ==> #[trigger] label.text_color_foreground@[k] == color,
            forall|k: int| 0 <= k < text@.len() ==> #[trigger] label.text_color_background@[k] == color_transparent(),
            label.timer == TimerSimple::new_started_spec(1_100_000),
            label.blinker.state,
            label.blinker.trigger == TriggerRepeating::new_distinct_spec(700_000, 50_000),
            label.char_switcher == TriggerRepeating::new_distinct_spec(700_000, 35_000),
    {
        let len: usize = text.unicode_len();
        let mut chars: Vec<char> = Vec::new();
        let mut foreground: Vec<Color> = Vec::new();
        let mut background: Vec<Color> = Vec::new();
        let mut k: usize = 0;
        while k < len
            invariant
                k <= len,
                len == text@.len(),
                chars@ == text@.take(k as int),
                foreground@.len() == k,
                background@.len() == k,
                forall|j: int| 0 <= j < k ==> #[trigger] foreground@[j] == color,
                forall|j: int| 0 <= j < k ==> #[trigger] background@[j] == color_transparent(),
            decreases len - k,
        {
            chars.push(text.get_char(k));
            foreground.push(color);
            background.push(color_transparent());
            assert(chars@ =~= text@.take(k as int + 1));
            k = k + 1;
        }
        assert(text@.take(len as int) == text@);
        InfoText {
            pos,
            timer: TimerSimple::new_started(1_100_000),
            blinker: TimerStateSwitchBinary::new(true, 700_000, 50_000),
            char_switcher: TriggerRepeating::new_with_distinct_triggertimes(700_000, 35_000),
            color,
            text: chars,
            text_color_foreground: foreground,
            text_color_background: background,
        }
    }

    /// The characters that scrambling rolls for: as many as have both
    /// colors.
    pub open spec fn slots(&self) -> nat {
        let chars = self.text@.len();
        let front = self.text_color_foreground@.len();
        let back = self.text_color_background@.len();
        if chars <= front && chars <= back {
            chars
        } else if front <= back {
            front
        } else {
            back
        }
    }

    /// What a scramble makes of the label with the words of `e`: each
    /// character in turn gets the character and the colors that its rolls
    /// give it.
    pub open spec fn scrambled(before: InfoText, after: InfoText, e: Entropy) -> bool {
        &&& after.text@.len() == before.text@.len()
        &&& after.text_color_foreground@.len() == before.text_color_foreground@.len()
        &&& after.text_color_background@.len() == before.text_color_background@.len()
        &&& forall|k: int|
            0 <= k < before.text@.len() ==> #[trigger] after.text@[k] == (if k < before.slots() {
                char_picked(e, slot_at(e, k as nat), before.text@[k])
            } else {
                before.text@[k]
            })
        &&& forall|k: int|
            0 <= k < before.text_color_foreground@.len() ==> #[trigger] after.text_color_foreground@[k] == (if k
                < before.slots() {
                foreground_picked(e, slot_at(e, k as nat), before.color)
            } else {
                before.text_color_foreground@[k]
            })
        &&& forall|k: int|
            0 <= k < before.text_color_background@.len() ==> #[trigger] after.text_color_background@[k] == (if k
                < before.slots() {
                background_picked(e, slot_at(e, k as nat))
            } else {
                before.text_color_background@[k]
            })
    }

    /// Advances the label. When the scramble trigger fires, every
    /// character is rolled for: one in five changes to a character of the
    /// scramble set, one foreground in twenty takes a color of the palette
    /// and the others the label's own, and three backgrounds in ten light
    /// up in a color of the palette while the others go dark. Returns
    /// whether the label has reached the end of its life, and whether it
    /// shows in this frame.
    pub fn update_and_check_if_finished(&mut self, entropy: &mut Entropy, deltatime: i64) -> (r: (bool, bool))
        ensures
            if old(self).char_switcher.fires(deltatime as int) {
                &&& Self::scrambled(*old(self), *final(self), *old(entropy))
                &&& old(entropy).drawn(final(entropy), slot_at(*old(entropy), old(self).slots()))
            } else {
                *final(entropy) == *old(entropy)
            },
            old(self).wf() ==> final(self).wf(),
            final(self).text@.len() == old(self).text@.len(),
            final(self).pos == old(self).pos,
            final(self).color == old(self).color,
            final(self).timer == old(self).timer.advanced(deltatime as int),
            final(self).blinker == old(self).blinker.stepped(deltatime as int),
            final(self).char_switcher == old(self).char_switcher.stepped(deltatime as int),
            r.0 == final(self).timer.finished(),
            r.1 == final(self).blinker.state,
            if old(self).char_switcher.fires(deltatime as int) {
                &&& text_scrambled(old(self).text@, final(self).text@)
                &&& old(self).wf() ==> colors_scrambled(
                    final(self).text_color_foreground@,
                    old(self).text@.len() as int,
                    old(self).color,
                )
                &&& old(self).wf() ==> colors_scrambled(
                    final(self).text_color_background@,
                    old(self).text@.len() as int,
                    color_transparent(),
                )
            } else {
                &&& final(self).text@ == old(self).text@
                &&& final(self).text_color_foreground@ == old(self).text_color_foreground@
                &&& final(self).text_color_background@ == old(self).text_color_background@
            },
    {
        let ghost start = *entropy;
        self.timer.update(deltatime);
        if self.char_switcher.update_and_check(deltatime) {
            let mut n: usize = self.text.len();
            if self.text_color_foreground.len() < n {
                n = self.text_color_foreground.len();
            }
            if self.text_color_background.len() < n {
                n = self.text_color_background.len();
            }
            let mut k: usize = 0;
            while k < n
                invariant
                    k <= n,
                    n == old(self).slots(),
                    start.drawn(entropy, slot_at(start, k as nat)),
                    forall|j: int|
                        0 <= j < self.text@.len() ==> #[trigger] self.text@[j] == (if j < k {
                            char_picked(start, slot_at(start, j as nat), old(self).text@[j])
                        } else {
                            old(self).text@[j]
                        }),
                    forall|j: int|
                        0 <= j < self.text_color_foreground@.len() ==> #[trigger] self.text_color_foreground@[j] == (
                        if j < k {
                            foreground_picked(start, slot_at(start, j as nat), old(self).color)
                        } else {
                            old(self).text_color_foreground@[j]
                        }),
                    forall|j: int|
                        0 <= j < self.text_color_background@.len() ==> #[trigger] self.text_color_background@[j] == (
                        if j < k {
                            background_picked(start, slot_at(start, j as nat))
                        } else {
                            old(self).text_color_background@[j]
                        }),
                    n <= old(self).text@.len(),
                    old(self).wf() ==> n == old(self).text@.len(),
                    self.text@.len() == old(self).text@.len(),
                    self.text_color_foreground@.len() == old(self).text_color_foreground@.len(),
                    self.text_color_background@.len() == old(self).text_color_background@.len(),
                    n <= self.text_color_foreground@.len(),
                    n <= self.text_color_background@.len(),
                    self.pos == old(self).pos,
                    self.color == old(self).color,
                    self.timer == old(self).timer.advanced(deltatime as int),
                    self.blinker == old(self).blinker,
                    self.char_switcher == old(self).char_switcher.stepped(deltatime as int),
                    forall|j: int|
                        0 <= j < self.text@.len() ==> #[trigger] self.text@[j] == old(self).text@[j]
                            || in_scramble_set(self.text@[j]),
                    forall|j: int|
                        0 <= j < k ==> #[trigger] self.text_color_foreground@[j] == self.color || in_palette(
                            self.text_color_foreground@[j],
                        ),
                    forall|j: int|
                        0 <= j < k ==> #[trigger] self.text_color_background@[j] == color_transparent()
                            || in_palette(self.text_color_background@[j]),
                decreases n - k,
            {
                let ghost at = slot_at(start, k as nat);
                let ghost first = *entropy;
                let letter: Option<u64> = roll(entropy, 200_000);
                let ghost second = *entropy;
                let front: Option<u64> = roll(entropy, 50_000);
                let ghost third = *entropy;
                let back: Option<u64> = roll(entropy, 300_000);
                proof {
                    start.lemma_position_shift(&first, at, 0);
                    start.lemma_position_shift(&first, at, 1);
                    start.lemma_draws_add(&first, &second, at, roll_draws(first, 0, 200_000));
                    let from = foreground_at(start, at);
                    start.lemma_position_shift(&second, from, 0);
                    start.lemma_position_shift(&second, from, 1);
                    start.lemma_draws_add(&second, &third, from, roll_draws(second, 0, 50_000));
                    let then = background_at(start, at);
                    start.lemma_position_shift(&third, then, 0);
                    start.lemma_position_shift(&third, then, 1);
                    start.lemma_draws_add(&third, entropy, then, roll_draws(third, 0, 300_000));
                    assert(slot_at(start, (k + 1) as nat) == then + roll_draws(start, then, 300_000));
                }
                match letter {
                    Some(word) => {
                        let c: char = scramble_char(word);
                        self.text[k] = c;
                    },
                    None => {},
                }
                let foreground: Color = match front {
                    Some(word) => palette(word),
                    None => self.color,
                };
                self.text_color_foreground[k] = foreground;
                let background: Color = match back {
                    Some(word) => palette(word),
                    None => color_transparent(),
                };
                self.text_color_background[k] = background;
                k = k + 1;
            }
        }
        let visible: bool = self.blinker.update_and_check(deltatime);
        (self.timer.is_finished(), visible)
    }
}

/// What the host's font measures.
#[derive(Clone, Copy, Debug, PartialEq, Eq, Structural)]
pub struct FontMetrics {
    /// Width of one character.
    pub glyph_width: i64,
    /// Height of a line.
    pub glyph_height: i64,
}

/// Two rectangles share some area.
pub open spec fn rects_overlap(a: Rect, b: Rect) -> bool {
    &&& a.pos.x < b.pos.x + b.dim.x
    &&& b.pos.x < a.pos.x + a.dim.x
    &&& a.pos.y < b.pos.y + b.dim.y
    &&& b.pos.y < a.pos.y + a.dim.y
}

/// The rectangle shares no area with any of the others.
pub open spec fn clear_of(r: Rect, others: Seq<Rect>) -> bool {
    forall|k: int| 0 <= k < others.len() ==> !rects_overlap(r, #[trigger] others[k])
}

pub fn overlap(a: &Rect, b: &Rect) -> (r: bool)
    ensures
        r == rects_overlap(*a, *b),
{
    (a.pos.x as i128) < b.pos.x as i128 + b.dim.x as i128 && (b.pos.x as i128) < a.pos.x as i128 + a.dim.x as i128
        && (a.pos.y as i128) < b.pos.y as i128 + b.dim.y as i128 && (b.pos.y as i128) < a.pos.y as i128
        + a.dim.y as i128
}

pub fn is_clear(r: &Rect, others: &Vec<Rect>) -> (clear: bool)
    ensures
        clear == clear_of(*r, others@),
{
    let mut k: usize = 0;
    while k < others.len()
        invariant
            k <= others@.len(),
            forall|j: int| 0 <= j < k ==> !rects_overlap(*r, #[trigger] others@[j]),
        decreases others@.len() - k,
    {
        if overlap(r, &others[k]) {
            return false;
        }
        k = k + 1;
    }
    true
}

/// The bounding box of a label of `len` characters at `pos`.
pub open spec fn label_rect(pos: Vec2, len: int, font: FontMetrics) -> Rect {
    Rect { pos, dim: Vec2 { x: crate::fixed::sat(len * font.glyph_width) as i64, y: font.glyph_height } }
}

pub fn measure_label(pos: Vec2, len: usize, font: &FontMetrics) -> (r: Rect)
    ensures
        r == label_rect(pos, len as int, *font),
{
    assert(-0x8000_0000_0000_0000_0000_0000_0000_0000 <= len * font.glyph_width
        <= 0x7fff_ffff_ffff_ffff_ffff_ffff_ffff_ffff) by (nonlinear_arith)
        requires
            0 <= len <= 0xffff_ffff_ffff_ffff,
            -0x8000_0000_0000_0000 <= font.glyph_width <= 0x7fff_ffff_ffff_ffff,
    ;
    Rect {
        pos,
        dim: Vec2 { x: crate::fixed::narrow((len as i128) * (font.glyph_width as i128)), y: font.glyph_height },
    }
}

/// The step by which a rectangle is moved in search of a clear place: its
/// height, or one unit if it has none.
pub open spec fn search_step(rect: Rect) -> i64 {
    if rect.dim.y > 0 { rect.dim.y } else { UNIT }
}

/// The first clear place found by looking one more step above `up`, then
/// one more below `down`, and so on for `steps` steps; the place of `rect`
/// itself if none is clear.
pub open spec fn searched(rect: Rect, others: Seq<Rect>, up: i64, down: i64, steps: nat) -> Vec2
    decreases steps,
{
    if steps == 0 {
        rect.pos
    } else {
        let above = Vec2 { x: rect.pos.x, y: crate::fixed::ssub(up, search_step(rect)) };
        let below = Vec2 { x: rect.pos.x, y: crate::fixed::sadd(down, search_step(rect)) };
        if clear_of(Rect { pos: above, dim: rect.dim }, others) {
            above
        } else if clear_of(Rect { pos: below, dim: rect.dim }, others) {
            below
        } else {
            searched(rect, others, above.y, below.y, (steps - 1) as nat)
        }
    }
}

/// The place that a rectangle is given among `others`: its own if that is
/// clear, else the nearest clear place a whole number of its heights above
/// or below, looking as many steps either way as there are other
/// rectangles, above before below.
pub open spec fn closest_clear(rect: Rect, others: Seq<Rect>) -> Vec2 {
    if clear_of(rect, others) {
        rect.pos
    } else {
        searched(rect, others, rect.pos.y, rect.pos.y, others.len())
    }
}

/// The search keeps the rectangle in its column, and leaves it where it is
/// or puts it in a clear place.
pub proof fn lemma_searched_is_clear(rect: Rect, others: Seq<Rect>, up: i64, down: i64, steps: nat)
    ensures
        searched(rect, others, up, down, steps).x == rect.pos.x,
        searched(rect, others, up, down, steps) == rect.pos || clear_of(
            Rect { pos: searched(rect, others, up, down, steps), dim: rect.dim },
            others,
        ),
    decreases steps,
{
    if steps > 0 {
        let above = Vec2 { x: rect.pos.x, y: crate::fixed::ssub(up, search_step(rect)) };
        let below = Vec2 { x: rect.pos.x, y: crate::fixed::sadd(down, search_step(rect)) };
        lemma_searched_is_clear(rect, others, above.y, below.y, (steps - 1) as nat);
    }
}

/// A place for `rect` where it overlaps none of `others`, if one is found
/// near it.
pub fn get_closest_position_without_overlapping(rect: Rect, others: &Vec<Rect>) -> (pos: Vec2)
    ensures
        pos == closest_clear(rect, others@),
        pos.x == rect.pos.x,
        clear_of(rect, others@) ==> pos == rect.pos,
        pos == rect.pos || clear_of(Rect { pos, dim: rect.dim }, others@),
{
    proof {
        lemma_searched_is_clear(rect, others@, rect.pos.y, rect.pos.y, others@.len());
    }
    if is_clear(&rect, others) {
        return rect.pos;
    }
    let step: i64 = if rect.dim.y > 0 { rect.dim.y } else { UNIT };
    let mut up: i64 = rect.pos.y;
    let mut down: i64 = rect.pos.y;
    let mut k: usize = 0;
    while k < others.len()
        invariant
            k <= others@.len(),
            step == search_step(rect),
            !clear_of(rect, others@),
            closest_clear(rect, others@) == searched(rect, others@, up, down, (others@.len() - k) as nat),
        decreases others@.len() - k,
    {
        up = fx_sub(up, step);
        let above: Rect = Rect { pos: Vec2 { x: rect.pos.x, y: up }, dim: rect.dim };
        if is_clear(&above, others) {
            return above.pos;
        }
        down = fx_add(down, step);
        let below: Rect = Rect { pos: Vec2 { x: rect.pos.x, y: down }, dim: rect.dim };
        if is_clear(&below, others) {
            return below.pos;
        }
        k = k + 1;
    }
    rect.pos
}

} // verus!
