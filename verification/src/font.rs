//! Bitmap fonts: a glyph map read off the top row of an atlas image.
//!
//! The top row of the atlas is a boundary track. The color of its first pixel
//! is the border color; every maximal run of other colors that is followed by a
//! border pixel marks the columns of one glyph. Glyphs are handed to the
//! characters of the font's character string in order.

use crate::shape::Rect;
use crate::util::{
    chars_of, code_of, code_point, has_duplicate_chars, lemma_code_point_injective,
};
use std::collections::HashMap;
use vstd::prelude::*;

verus! {

/// Why an atlas could not be read.
#[derive(Clone, Copy, Debug, PartialEq, Eq, Structural)]
pub enum FontError {
    /// The atlas is wider or taller than a `Rect` can describe.
    TooLarge,
    /// The pixel buffer ends before the top row does.
    ShortPixelBuffer,
}

/// The bytes of the pixel in column `i` of the top row.
pub open spec fn pixel(pixels: Seq<u8>, bytes_per_pixel: int, i: int) -> Seq<u8> {
    pixels.subrange(i * bytes_per_pixel, (i + 1) * bytes_per_pixel)
}

/// For each column of the top row, whether its color differs from the border
/// color, which is the color of column 0.
pub open spec fn top_row_ink(pixels: Seq<u8>, bytes_per_pixel: int, width: int) -> Seq<bool> {
    Seq::new(
        width as nat,
        |i: int| pixel(pixels, bytes_per_pixel, i) != pixel(pixels, bytes_per_pixel, 0),
    )
}

/// The first column of the run of inked columns that ends just before column `e`
/// (`e` itself where column `e - 1` is not inked).
pub open spec fn run_start(ink: Seq<bool>, e: int) -> int
    decreases e,
{
    if e <= 0 || e > ink.len() || !ink[e - 1] {
        e
    } else {
        run_start(ink, e - 1)
    }
}

/// Column `e` is a border column that follows an inked one: a run closes there.
pub open spec fn closes_run(ink: Seq<bool>, e: int) -> bool {
    0 < e < ink.len() && ink[e - 1] && !ink[e]
}

/// The runs that close within the first `n` columns, left to right, each as
/// its first column and the column at which it closes.
pub open spec fn closed_runs(ink: Seq<bool>, n: int) -> Seq<(int, int)>
    decreases n,
{
    if n <= 0 {
        Seq::empty()
    } else if closes_run(ink, n - 1) {
        closed_runs(ink, n - 1).push((run_start(ink, n - 1), n - 1))
    } else {
        closed_runs(ink, n - 1)
    }
}

/// The rectangle of a glyph whose run is `run`: the run's columns, over the
/// full height of the atlas.
pub open spec fn glyph_rect(run: (int, int), height: int) -> Rect {
    Rect { x: run.0 as i32, y: 0, w: (run.1 - run.0) as i32, h: height as i32 }
}

/// The first `n` runs handed to the first `n` characters, in order; a character
/// that occurs again keeps the later rectangle.
pub open spec fn assign_glyphs(
    runs: Seq<(int, int)>,
    chars: Seq<char>,
    height: int,
    n: int,
) -> Map<char, Rect>
    decreases n,
{
    if n <= 0 {
        Map::empty()
    } else {
        assign_glyphs(runs, chars, height, n - 1).insert(
            chars[n - 1],
            glyph_rect(runs[n - 1], height),
        )
    }
}

/// How many glyphs a row with `runs` closed runs yields for `chars` characters.
pub open spec fn glyph_count(runs: int, chars: int) -> int {
    if runs <= chars {
        runs
    } else {
        chars
    }
}

/// The glyph map of an atlas whose top row is `ink`, for the character string
/// `chars`.
pub open spec fn glyph_map(ink: Seq<bool>, chars: Seq<char>, height: int) -> Map<char, Rect> {
    let runs = closed_runs(ink, ink.len() as int);
    assign_glyphs(runs, chars, height, glyph_count(runs.len() as int, chars.len() as int))
}

/// A glyph map as the characters see it, given the map by code point.
pub open spec fn by_char(codes: Map<u32, Rect>) -> Map<char, Rect> {
    Map::new(|c: char| codes.contains_key(code_of(c)), |c: char| codes[code_of(c)])
}

/// Font is a way to render text, loaded from a specially formatted image: for
/// each printable character, the rectangle of the atlas that shows it.
pub struct Font {
    chars: HashMap<u32, Rect>,
}

impl View for Font {
    type V = Map<char, Rect>;

    closed spec fn view(&self) -> Map<char, Rect> {
        by_char(self.chars@)
    }
}

impl Font {
    /// The font has as many characters as its map by code point has keys.
    #[verifier::type_invariant]
    spec fn well_formed(&self) -> bool {
        &&& self@.dom().finite()
        &&& self@.dom().len() == self.chars@.len()
    }

    /// Whether the font has a glyph for `ch`.
    pub fn is_printable(&self, ch: char) -> (printable: bool)
        ensures
            printable == self@.contains_key(ch),
    {
        broadcast use vstd::std_specs::hash::group_hash_axioms;

        let code: u32 = code_point(ch);
        self.chars.contains_key(&code)
    }

    /// The number of characters that the font can print.
    pub fn len(&self) -> (n: usize)
        ensures
            self@.dom().finite(),
            n == self@.dom().len(),
    {
        broadcast use vstd::std_specs::hash::group_hash_axioms;

        proof {
            use_type_invariant(self);
        }
        self.chars.len()
    }

    /// The rectangle of the atlas that shows `ch`, if the font has one.
    pub fn get_rect(&self, ch: char) -> (rect: Option<Rect>)
        ensures
            rect == (if self@.contains_key(ch) {
                Some(self@[ch])
            } else {
                None
            }),
    {
        broadcast use vstd::std_specs::hash::group_hash_axioms;

        let code: u32 = code_point(ch);
        match self.chars.get(&code) {
            Some(r) => Some(*r),
            None => None,
        }
    }
}

/// A longer prefix of the row closes at least the runs of a shorter one, and
/// closes them first.
pub proof fn lemma_closed_runs_prefix(ink: Seq<bool>, i: int, n: int)
    requires
        0 <= i <= n,
    ensures
        closed_runs(ink, i).len() <= closed_runs(ink, n).len(),
        forall|k: int|
            0 <= k < closed_runs(ink, i).len() ==> closed_runs(ink, n)[k] == closed_runs(
                ink,
                i,
            )[k],
    decreases n - i,
{
    if i < n {
        lemma_closed_runs_prefix(ink, i, n - 1);
    }
}

/// The glyphs handed out depend only on the runs that are used.
pub proof fn lemma_assign_glyphs_prefix(
    a: Seq<(int, int)>,
    b: Seq<(int, int)>,
    chars: Seq<char>,
    height: int,
    n: int,
)
    requires
        forall|k: int| 0 <= k < n ==> a[k] == b[k],
    ensures
        assign_glyphs(a, chars, height, n) == assign_glyphs(b, chars, height, n),
    decreases n,
{
    if n > 0 {
        lemma_assign_glyphs_prefix(a, b, chars, height, n - 1);
    }
}

/// Whether the pixel in column `i` has the border color.
fn is_border(pixels: &[u8], bytes_per_pixel: usize, i: usize) -> (border: bool)
    requires
        (i + 1) * bytes_per_pixel <= pixels@.len(),
    ensures
        border == (pixel(pixels@, bytes_per_pixel as int, i as int) == pixel(
            pixels@,
            bytes_per_pixel as int,
            0,
        )),
{
    let len: usize = pixels.len();
    assert(i * bytes_per_pixel + bytes_per_pixel == (i + 1) * bytes_per_pixel)
        by (nonlinear_arith);
    assert(0 <= i * bytes_per_pixel) by (nonlinear_arith);
    let base: usize = i * bytes_per_pixel;
    let ghost here = pixels@.subrange(base as int, base + bytes_per_pixel);
    let ghost first = pixels@.subrange(0, bytes_per_pixel as int);
    assert(here == pixel(pixels@, bytes_per_pixel as int, i as int));
    assert(first == pixel(pixels@, bytes_per_pixel as int, 0));
    let mut j: usize = 0;
    while j < bytes_per_pixel
        invariant
            j <= bytes_per_pixel,
            base + bytes_per_pixel <= pixels@.len() == len,
            here == pixels@.subrange(base as int, base + bytes_per_pixel),
            first == pixels@.subrange(0, bytes_per_pixel as int),
            here == pixel(pixels@, bytes_per_pixel as int, i as int),
            first == pixel(pixels@, bytes_per_pixel as int, 0),
            forall|k: int| 0 <= k < j ==> here[k] == first[k],
        decreases bytes_per_pixel - j,
    {
        if pixels[base + j] != pixels[j] {
            assert(here[j as int] != first[j as int]);
            return false;
        }
        j += 1;
    }
    assert(here =~= first);
    true
}

/// Parse a font from the pixels of an atlas image, using `string` as the
/// characters that the atlas shows, left to right.
///
/// `pixels` holds the image row by row, `bytes_per_pixel` bytes to a pixel;
/// only its top row is read. The result maps the k-th character of `string` to
/// the k-th run that closes in the top row, for as long as both last.
pub fn create_font(
    pixels: &[u8],
    bytes_per_pixel: usize,
    width: u32,
    height: u32,
    string: &str,
) -> (result: Result<Font, FontError>)
    ensures
        match result {
            Ok(font) => {
                &&& width <= i32::MAX && height <= i32::MAX
                &&& width * bytes_per_pixel <= pixels@.len()
                &&& font@ == glyph_map(
                    top_row_ink(pixels@, bytes_per_pixel as int, width as int),
                    string@,
                    height as int,
                )
            },
            Err(FontError::TooLarge) => width > i32::MAX || height > i32::MAX,
            Err(FontError::ShortPixelBuffer) => {
                &&& width <= i32::MAX && height <= i32::MAX
                &&& width * bytes_per_pixel > pixels@.len()
            },
        },
{
    broadcast use vstd::std_specs::hash::group_hash_axioms;

    if width > 0x7fff_ffff || height > 0x7fff_ffff {
        return Err(FontError::TooLarge);
    }
    assert(width * bytes_per_pixel <= 0x7fff_ffff * 0x1_0000_0000_0000_0000) by (nonlinear_arith)
        requires
            width <= 0x7fff_ffff,
            bytes_per_pixel <= 0xffff_ffff_ffff_ffff,
    ;
    let row_bytes: u128 = (width as u128) * (bytes_per_pixel as u128);
    if row_bytes > pixels.len() as u128 {
        return Err(FontError::ShortPixelBuffer);
    }
    let chars = chars_of(string);
    let ghost ink = top_row_ink(pixels@, bytes_per_pixel as int, width as int);
    let mut glyphs: HashMap<u32, Rect> = HashMap::new();
    let mut count: usize = 0;
    let mut in_run: bool = false;
    let mut start: u32 = 0;
    let mut i: u32 = 0;
    assert(by_char(glyphs@) =~= Map::<char, Rect>::empty());
    while i < width && count < chars.len()
        invariant
            i <= width <= i32::MAX,
            height <= i32::MAX,
            width * bytes_per_pixel <= pixels@.len(),
            ink == top_row_ink(pixels@, bytes_per_pixel as int, width as int),
            chars@ == string@,
            count <= chars.len(),
            count == closed_runs(ink, i as int).len(),
            in_run == (i > 0 && ink[i - 1]),
            in_run ==> start == run_start(ink, i as int) && start < i,
            by_char(glyphs@) == assign_glyphs(
                closed_runs(ink, i as int),
                chars@,
                height as int,
                count as int,
            ),
            by_char(glyphs@).dom().finite(),
            by_char(glyphs@).dom().len() == glyphs@.len(),
        decreases width - i,
    {
        assert((i + 1) * bytes_per_pixel <= pixels@.len()) by (nonlinear_arith)
            requires
                i < width,
                width * bytes_per_pixel <= pixels@.len(),
        ;
        let border = is_border(pixels, bytes_per_pixel, i as usize);
        assert(ink[i as int] == !border);
        if border {
            if in_run {
                let ch = chars[count];
                let rect = Rect { x: start as i32, y: 0, w: (i - start) as i32, h: height as i32 };
                let code: u32 = code_point(ch);
                let ghost before = glyphs@;
                glyphs.insert(code, rect);
                proof {
                    let runs = closed_runs(ink, i as int);
                    let more = closed_runs(ink, i + 1);
                    assert(closes_run(ink, i as int));
                    assert(more == runs.push((start as int, i as int)));
                    assert(rect == glyph_rect(more[count as int], height as int));
                    lemma_assign_glyphs_prefix(runs, more, chars@, height as int, count as int);
                    assert forall|c: char| #[trigger] code_of(c) == code implies c == ch by {
                        lemma_code_point_injective(c, ch);
                    }
                    assert(by_char(glyphs@) =~= by_char(before).insert(ch, rect));
                }
                count += 1;
            }
            in_run = false;
        } else {
            proof {
                assert(!closes_run(ink, i as int));
                assert(run_start(ink, i + 1) == run_start(ink, i as int));
            }
            if !in_run {
                assert(run_start(ink, i as int) == i);
                start = i;
                in_run = true;
            }
        }
        i += 1;
    }
    proof {
        let runs = closed_runs(ink, i as int);
        let all = closed_runs(ink, width as int);
        lemma_closed_runs_prefix(ink, i as int, width as int);
        lemma_assign_glyphs_prefix(runs, all, chars@, height as int, count as int);
    }
    Ok(Font { chars: glyphs })
}

/// The run that ends before column `e` is made of inked columns, and none
/// lies directly before it.
pub proof fn lemma_run_start_is_maximal(ink: Seq<bool>, e: int)
    requires
        0 <= e <= ink.len(),
    ensures
        0 <= run_start(ink, e) <= e,
        forall|c: int| run_start(ink, e) <= c < e ==> ink[c],
        run_start(ink, e) == 0 || !ink[run_start(ink, e) - 1],
        e > 0 && ink[e - 1] ==> run_start(ink, e) < e,
    decreases e,
{
    if e > 0 && ink[e - 1] {
        lemma_run_start_is_maximal(ink, e - 1);
    }
}

/// Every run that `closed_runs` lists is a maximal run of inked columns
/// that a border column follows, and the runs are listed left to right.
pub proof fn lemma_closed_runs_are_maximal(ink: Seq<bool>, n: int, k: int)
    requires
        0 <= n <= ink.len(),
        0 <= k < closed_runs(ink, n).len(),
    ensures
        ({
            let (s, e) = closed_runs(ink, n)[k];
            &&& 0 <= s < e < n
            &&& forall|c: int| s <= c < e ==> ink[c]
            &&& !ink[e]
            &&& s == 0 || !ink[s - 1]
            &&& k > 0 ==> closed_runs(ink, n)[k - 1].1 < s
        }),
    decreases n,
{
    if n > 0 {
        let shorter = closed_runs(ink, n - 1);
        if k < shorter.len() {
            lemma_closed_runs_are_maximal(ink, n - 1, k);
        } else {
            lemma_run_start_is_maximal(ink, n - 1);
            if k > 0 {
                lemma_closed_runs_are_maximal(ink, n - 1, k - 1);
                let (s0, e0) = shorter[k - 1];
                let s = run_start(ink, n - 1);
                assert(!ink[e0]);
                assert(e0 < s) by {
                    if s <= e0 {
                        assert(ink[e0]);
                    }
                }
            }
        }
    }
}

/// Every maximal run of inked columns that a border column follows is
/// listed by `closed_runs`.
pub proof fn lemma_closed_runs_are_complete(ink: Seq<bool>, n: int, s: int, e: int)
    requires
        0 <= s < e < n <= ink.len(),
        forall|c: int| s <= c < e ==> ink[c],
        !ink[e],
        s == 0 || !ink[s - 1],
    ensures
        closed_runs(ink, n).contains((s, e)),
    decreases n,
{
    if e == n - 1 {
        lemma_run_start_of_run(ink, s, e);
        let shorter = closed_runs(ink, n - 1);
        assert(closes_run(ink, e));
        assert(shorter.push((s, e))[shorter.len() as int] == (s, e));
    } else {
        lemma_closed_runs_are_complete(ink, n - 1, s, e);
        let shorter = closed_runs(ink, n - 1);
        let k = choose|k: int| 0 <= k < shorter.len() && shorter[k] == (s, e);
        lemma_closed_runs_prefix(ink, n - 1, n);
        assert(closed_runs(ink, n)[k] == (s, e));
    }
}

/// A run of inked columns from `s` up to `e`, with none directly before it,
/// starts at `s`.
pub proof fn lemma_run_start_of_run(ink: Seq<bool>, s: int, e: int)
    requires
        0 <= s <= e <= ink.len(),
        forall|c: int| s <= c < e ==> ink[c],
        s == 0 || !ink[s - 1],
    ensures
        run_start(ink, e) == s,
    decreases e - s,
{
    if s < e {
        lemma_run_start_of_run(ink, s, e - 1);
    }
}

/// A character has a glyph only if it is among the characters that were
/// handed one.
pub proof fn lemma_glyph_only_for_listed(
    runs: Seq<(int, int)>,
    chars: Seq<char>,
    height: int,
    n: int,
    c: char,
)
    requires
        assign_glyphs(runs, chars, height, n).contains_key(c),
    ensures
        exists|k: int| 0 <= k < n && chars[k] == c,
    decreases n,
{
    if n > 0 {
        if chars[n - 1] != c {
            lemma_glyph_only_for_listed(runs, chars, height, n - 1, c);
            let k = choose|k: int| 0 <= k < n - 1 && chars[k] == c;
            assert(0 <= k < n && chars[k] == c);
        }
    }
}

/// A character that is handed a glyph has the rectangle of its last
/// occurrence: where the character string repeats one, the later run wins.
pub proof fn lemma_glyph_of_last_occurrence(
    runs: Seq<(int, int)>,
    chars: Seq<char>,
    height: int,
    n: int,
    k: int,
)
    requires
        0 <= k < n,
        forall|j: int| k < j < n ==> chars[j] != chars[k],
    ensures
        assign_glyphs(runs, chars, height, n).contains_key(chars[k]),
        assign_glyphs(runs, chars, height, n)[chars[k]] == glyph_rect(runs[k], height),
    decreases n,
{
    if k < n - 1 {
        lemma_glyph_of_last_occurrence(runs, chars, height, n - 1, k);
    }
}

/// Where no character repeats among the first `n`, each of them has a glyph
/// of its own: the map has `n` entries.
pub proof fn lemma_distinct_chars_fill_the_map(
    runs: Seq<(int, int)>,
    chars: Seq<char>,
    height: int,
    n: int,
)
    requires
        0 <= n <= chars.len(),
        !has_duplicate_chars(chars.take(n)),
    ensures
        assign_glyphs(runs, chars, height, n).dom().finite(),
        assign_glyphs(runs, chars, height, n).dom().len() == n,
    decreases n,
{
    if n > 0 {
        let all = chars.take(n);
        let fewer = chars.take(n - 1);
        assert forall|i: int, j: int| 0 <= i < j < fewer.len() implies fewer[i] != fewer[j] by {
            assert(all[i] == fewer[i] && all[j] == fewer[j]);
        }
        lemma_distinct_chars_fill_the_map(runs, chars, height, n - 1);
        let before = assign_glyphs(runs, chars, height, n - 1);
        let c = chars[n - 1];
        if before.contains_key(c) {
            lemma_glyph_only_for_listed(runs, chars, height, n - 1, c);
            let k = choose|k: int| 0 <= k < n - 1 && chars[k] == c;
            assert(all[k] == all[n - 1]);
        }
        assert(assign_glyphs(runs, chars, height, n).dom() =~= before.dom().insert(c));
    }
}

/// An atlas whose top row never leaves the border color has no glyph,
/// whatever characters it was meant to show.
pub proof fn lemma_blank_row_has_no_glyphs(ink: Seq<bool>, chars: Seq<char>, height: int)
    requires
        forall|i: int| 0 <= i < ink.len() ==> !ink[i],
    ensures
        glyph_map(ink, chars, height) == Map::<char, Rect>::empty(),
{
    lemma_blank_prefix_closes_no_run(ink, ink.len() as int);
}

/// Without an inked column no run closes.
pub proof fn lemma_blank_prefix_closes_no_run(ink: Seq<bool>, n: int)
    requires
        forall|i: int| 0 <= i < ink.len() ==> !ink[i],
    ensures
        closed_runs(ink, n).len() == 0,
    decreases n,
{
    if n > 0 {
        lemma_blank_prefix_closes_no_run(ink, n - 1);
    }
}

} // verus!
