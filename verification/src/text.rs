//! Text layout: which glyphs a string draws, and where.
//!
//! A cursor starts at the origin. Each character that the font can print draws
//! its glyph at the cursor and moves the cursor right by the glyph's width; a
//! character that the font cannot print draws nothing and leaves the cursor.

use crate::draw::{Color, DrawCommand};
use crate::font::Font;
use crate::shape::Rect;
use crate::util::chars_of;
use vstd::prelude::*;

verus! {

/// Where the cursor stands after the first `n` characters of `text`, having
/// started at `x`.
pub open spec fn cursor_after(glyphs: Map<char, Rect>, text: Seq<char>, x: int, n: int) -> int
    decreases n,
{
    if n <= 0 {
        x
    } else if glyphs.contains_key(text[n - 1]) {
        cursor_after(glyphs, text, x, n - 1) + glyphs[text[n - 1]].w
    } else {
        cursor_after(glyphs, text, x, n - 1)
    }
}

/// The cursor stays within the coordinates of a `Rect` all along the first `n`
/// characters of `text`.
pub open spec fn cursor_fits(glyphs: Map<char, Rect>, text: Seq<char>, x: int, n: int) -> bool {
    forall|k: int| 0 <= k <= n ==> i32::MIN <= #[trigger] cursor_after(glyphs, text, x, k) <= i32::MAX
}

/// The glyph that the character `c` draws with the cursor at `cursor`.
pub open spec fn glyph_at(
    glyphs: Map<char, Rect>,
    tint: Color,
    c: char,
    cursor: int,
    y: i32,
) -> DrawCommand {
    DrawCommand::Glyph {
        tint,
        src: glyphs[c],
        dst: Rect { x: cursor as i32, y, w: glyphs[c].w, h: glyphs[c].h },
    }
}

/// What the first `n` characters of `text` draw, in order.
pub open spec fn glyph_draws(
    glyphs: Map<char, Rect>,
    tint: Color,
    text: Seq<char>,
    x: int,
    y: i32,
    n: int,
) -> Seq<DrawCommand>
    decreases n,
{
    if n <= 0 {
        Seq::empty()
    } else if glyphs.contains_key(text[n - 1]) {
        glyph_draws(glyphs, tint, text, x, y, n - 1).push(
            glyph_at(glyphs, tint, text[n - 1], cursor_after(glyphs, text, x, n - 1), y),
        )
    } else {
        glyph_draws(glyphs, tint, text, x, y, n - 1)
    }
}

/// Lay `text` out from `(x, y)` in `font`, tinted by `tint`.
///
/// The answer is `None` exactly where the cursor would leave the range of a
/// `Rect`'s coordinates; nothing is to be drawn then.
pub fn layout_text(
    font: &Font,
    tint: Color,
    text: &str,
    x: i32,
    y: i32,
) -> (draws: Option<Vec<DrawCommand>>)
    ensures
        draws is Some <==> cursor_fits(font@, text@, x as int, text@.len() as int),
        draws matches Some(v) ==> v@ == glyph_draws(
            font@,
            tint,
            text@,
            x as int,
            y,
            text@.len() as int,
        ),
{
    let chars = chars_of(text);
    let mut draws: Vec<DrawCommand> = Vec::new();
    let mut current_x: i32 = x;
    let mut i: usize = 0;
    while i < chars.len()
        invariant
            i <= chars.len(),
            chars@ == text@,
            current_x == cursor_after(font@, text@, x as int, i as int),
            cursor_fits(font@, text@, x as int, i as int),
            draws@ == glyph_draws(font@, tint, text@, x as int, y, i as int),
        decreases chars.len() - i,
    {
        let ch = chars[i];
        match font.get_rect(ch) {
            None => {},
            Some(font_rect) => {
                draws.push(
                    DrawCommand::Glyph {
                        tint,
                        src: font_rect,
                        dst: Rect { x: current_x, y, w: font_rect.w, h: font_rect.h },
                    },
                );
                match current_x.checked_add(font_rect.w) {
                    None => {
                        assert(!(i32::MIN <= cursor_after(font@, text@, x as int, i + 1)
                            <= i32::MAX));
                        return None;
                    },
                    Some(next_x) => {
                        current_x = next_x;
                    },
                }
            },
        }
        i += 1;
    }
    Some(draws)
}

/// The layout of the first `n` characters depends on no later character.
pub proof fn lemma_layout_reads_prefix(
    glyphs: Map<char, Rect>,
    tint: Color,
    a: Seq<char>,
    b: Seq<char>,
    x: int,
    y: i32,
    n: int,
)
    requires
        n <= a.len(),
        n <= b.len(),
        forall|k: int| 0 <= k < n ==> a[k] == b[k],
    ensures
        cursor_after(glyphs, a, x, n) == cursor_after(glyphs, b, x, n),
        glyph_draws(glyphs, tint, a, x, y, n) == glyph_draws(glyphs, tint, b, x, y, n),
    decreases n,
{
    if n > 0 {
        lemma_layout_reads_prefix(glyphs, tint, a, b, x, y, n - 1);
    }
}

/// A character that the font cannot print is skipped: with it or without it
/// in the text, the same glyphs are drawn at the same places, those of the
/// characters behind it included, and the cursor ends where it would have.
pub proof fn lemma_unprintable_char_is_skipped(
    glyphs: Map<char, Rect>,
    tint: Color,
    before: Seq<char>,
    c: char,
    behind: Seq<char>,
    x: int,
    y: i32,
)
    requires
        !glyphs.contains_key(c),
    ensures
        ({
            let with = before.push(c) + behind;
            let without = before + behind;
            &&& glyph_draws(glyphs, tint, with, x, y, with.len() as int) == glyph_draws(
                glyphs,
                tint,
                without,
                x,
                y,
                without.len() as int,
            )
            &&& cursor_after(glyphs, with, x, with.len() as int) == cursor_after(
                glyphs,
                without,
                x,
                without.len() as int,
            )
        }),
{
    lemma_skipped_up_to(glyphs, tint, before, c, behind, x, y, behind.len() as int);
}

/// The same, for the text up to the first `m` characters behind the
/// unprintable one.
pub proof fn lemma_skipped_up_to(
    glyphs: Map<char, Rect>,
    tint: Color,
    before: Seq<char>,
    c: char,
    behind: Seq<char>,
    x: int,
    y: i32,
    m: int,
)
    requires
        !glyphs.contains_key(c),
        0 <= m <= behind.len(),
    ensures
        ({
            let with = before.push(c) + behind;
            let without = before + behind;
            &&& glyph_draws(glyphs, tint, with, x, y, before.len() + 1 + m) == glyph_draws(
                glyphs,
                tint,
                without,
                x,
                y,
                before.len() + m,
            )
            &&& cursor_after(glyphs, with, x, before.len() + 1 + m) == cursor_after(
                glyphs,
                without,
                x,
                before.len() + m,
            )
        }),
    decreases m,
{
    let with = before.push(c) + behind;
    let without = before + behind;
    let n = before.len() as int;
    if m == 0 {
        assert(with[n] == c);
        lemma_layout_reads_prefix(glyphs, tint, with, without, x, y, n);
    } else {
        lemma_skipped_up_to(glyphs, tint, before, c, behind, x, y, m - 1);
        assert(with[n + m] == behind[m - 1]);
        assert(without[n + m - 1] == behind[m - 1]);
    }
}

} // verus!
