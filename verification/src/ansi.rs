//! The ANSI terminal backend: a double-buffered diffing protocol that
//! draws glyphs into a character raster target and serializes each
//! frame into a compact stream of characters and escape sequences.
//!
//! Nothing here touches a real terminal: all output accumulates in an
//! in-memory stream of characters that the caller takes and forwards
//! to its console.

use vstd::prelude::*;

use crate::fx::{Fx, FX_ONE};
use crate::occlusion::{DepthEntry, OcclusionRecord, occluded_spec};
use crate::screen::{EmptyCell, Screen};

verus! {

impl EmptyCell for char {
    open spec fn empty_spec() -> char {
        '\0'
    }

    fn empty_value() -> (r: char) {
        '\0'
    }
}

/// The fixed ANSI style selection table (the `<code>` of `ESC [ <code> m`).
#[derive(Clone, Copy, Debug, PartialEq, Eq, Structural)]
pub enum ANSIStyle {
    Reset,
    Bold,
    Faint,
    Italic,
    Underline,
    SlowBlink,
    FastBlink,
    Invert,
    Conceal,
    CrossedOut,
    PriamryFont,
    AlternativeFont,
    Fraktur,
    DoublyUnderlinedOrNotBold,
    NormalIntensity,
    NeitherItalicNorBlackletter,
    NotUnderlined,
    NotBlinking,
    ProportionalSpacing,
    NotReversed,
    Reveal,
    NotCrossedOut,
    SetForegroundColor,
    SetForegroundColor8bit,
    DefaultForegroundColor,
    SetBackgroundColor,
    SetBackgroundColor8bit,
    DefaultBackgroundColor,
    DisableProportionalSpacing,
    Framed,
    Encircled,
    Overlined,
    NeitherFramedNorEncircled,
    NotOverlined,
    SetUnderlineColor,
    DefaultUnderlineColor,
    IdeogramUnderlineOrRightSideLine,
    IdeogramDoubleUnderlineOrDoubleRightSideLine,
    IdeogramOverlineOrLeftSideLine,
    IdeogramDoubleOverlineOrDoubleLeftSideLine,
    IdeogramStressMaking,
    NoIdeogramAttributes,
    Superscript,
    Subscript,
    NeitherSubscriptNorSuperscirpt,
    SetBrightForegroundColor,
    SetBrightBackgroundColor,
}

/// The numeric code of each style, as a fixed lookup.
pub open spec fn style_code(s: ANSIStyle) -> int {
    match s {
        ANSIStyle::Reset => 0,
        ANSIStyle::Bold => 1,
        ANSIStyle::Faint => 2,
        ANSIStyle::Italic => 3,
        ANSIStyle::Underline => 4,
        ANSIStyle::SlowBlink => 5,
        ANSIStyle::FastBlink => 6,
        ANSIStyle::Invert => 7,
        ANSIStyle::Conceal => 8,
        ANSIStyle::CrossedOut => 9,
        ANSIStyle::PriamryFont => 10,
        ANSIStyle::AlternativeFont => 11,
        ANSIStyle::Fraktur => 20,
        ANSIStyle::DoublyUnderlinedOrNotBold => 21,
        ANSIStyle::NormalIntensity => 22,
        ANSIStyle::NeitherItalicNorBlackletter => 23,
        ANSIStyle::NotUnderlined => 24,
        ANSIStyle::NotBlinking => 25,
        ANSIStyle::ProportionalSpacing => 26,
        ANSIStyle::NotReversed => 27,
        ANSIStyle::Reveal => 28,
        ANSIStyle::NotCrossedOut => 29,
        ANSIStyle::SetForegroundColor => 30,
        ANSIStyle::SetForegroundColor8bit => 38,
        ANSIStyle::DefaultForegroundColor => 39,
        ANSIStyle::SetBackgroundColor => 40,
        ANSIStyle::SetBackgroundColor8bit => 48,
        ANSIStyle::DefaultBackgroundColor => 49,
        ANSIStyle::DisableProportionalSpacing => 50,
        ANSIStyle::Framed => 51,
        ANSIStyle::Encircled => 52,
        ANSIStyle::Overlined => 53,
        ANSIStyle::NeitherFramedNorEncircled => 54,
        ANSIStyle::NotOverlined => 55,
        ANSIStyle::SetUnderlineColor => 56,
        ANSIStyle::DefaultUnderlineColor => 57,
        ANSIStyle::IdeogramUnderlineOrRightSideLine => 58,
        ANSIStyle::IdeogramDoubleUnderlineOrDoubleRightSideLine => 59,
        ANSIStyle::IdeogramOverlineOrLeftSideLine => 60,
        ANSIStyle::IdeogramDoubleOverlineOrDoubleLeftSideLine => 61,
        ANSIStyle::IdeogramStressMaking => 62,
        ANSIStyle::NoIdeogramAttributes => 63,
        ANSIStyle::Superscript => 64,
        ANSIStyle::Subscript => 65,
        ANSIStyle::NeitherSubscriptNorSuperscirpt => 66,
        ANSIStyle::SetBrightForegroundColor => 67,
        ANSIStyle::SetBrightBackgroundColor => 100,
    }
}

impl ANSIStyle {
    /// The numeric code of this style.
    pub fn code(&self) -> (r: u32)
        ensures
            r == style_code(*self),
    {
        match *self {
            ANSIStyle::Reset => 0,
            ANSIStyle::Bold => 1,
            ANSIStyle::Faint => 2,
            ANSIStyle::Italic => 3,
            ANSIStyle::Underline => 4,
            ANSIStyle::SlowBlink => 5,
            ANSIStyle::FastBlink => 6,
            ANSIStyle::Invert => 7,
            ANSIStyle::Conceal => 8,
            ANSIStyle::CrossedOut => 9,
            ANSIStyle::PriamryFont => 10,
            ANSIStyle::AlternativeFont => 11,
            ANSIStyle::Fraktur => 20,
            ANSIStyle::DoublyUnderlinedOrNotBold => 21,
            ANSIStyle::NormalIntensity => 22,
            ANSIStyle::NeitherItalicNorBlackletter => 23,
            ANSIStyle::NotUnderlined => 24,
            ANSIStyle::NotBlinking => 25,
            ANSIStyle::ProportionalSpacing => 26,
            ANSIStyle::NotReversed => 27,
            ANSIStyle::Reveal => 28,
            ANSIStyle::NotCrossedOut => 29,
            ANSIStyle::SetForegroundColor => 30,
            ANSIStyle::SetForegroundColor8bit => 38,
            ANSIStyle::DefaultForegroundColor => 39,
            ANSIStyle::SetBackgroundColor => 40,
            ANSIStyle::SetBackgroundColor8bit => 48,
            ANSIStyle::DefaultBackgroundColor => 49,
            ANSIStyle::DisableProportionalSpacing => 50,
            ANSIStyle::Framed => 51,
            ANSIStyle::Encircled => 52,
            ANSIStyle::Overlined => 53,
            ANSIStyle::NeitherFramedNorEncircled => 54,
            ANSIStyle::NotOverlined => 55,
            ANSIStyle::SetUnderlineColor => 56,
            ANSIStyle::DefaultUnderlineColor => 57,
            ANSIStyle::IdeogramUnderlineOrRightSideLine => 58,
            ANSIStyle::IdeogramDoubleUnderlineOrDoubleRightSideLine => 59,
            ANSIStyle::IdeogramOverlineOrLeftSideLine => 60,
            ANSIStyle::IdeogramDoubleOverlineOrDoubleLeftSideLine => 61,
            ANSIStyle::IdeogramStressMaking => 62,
            ANSIStyle::NoIdeogramAttributes => 63,
            ANSIStyle::Superscript => 64,
            ANSIStyle::Subscript => 65,
            ANSIStyle::NeitherSubscriptNorSuperscirpt => 66,
            ANSIStyle::SetBrightForegroundColor => 67,
            ANSIStyle::SetBrightBackgroundColor => 100,
        }
    }
}

/// The decimal digit characters of `n`, most significant first.
pub open spec fn dec_digits(n: nat) -> Seq<char>
    decreases n,
{
    if n < 10 {
        seq![digit_char(n)]
    } else {
        dec_digits(n / 10) + seq![digit_char(n % 10)]
    }
}

/// The character of one decimal digit.
pub open spec fn digit_char(d: nat) -> char {
    if d == 0 {
        '0'
    } else if d == 1 {
        '1'
    } else if d == 2 {
        '2'
    } else if d == 3 {
        '3'
    } else if d == 4 {
        '4'
    } else if d == 5 {
        '5'
    } else if d == 6 {
        '6'
    } else if d == 7 {
        '7'
    } else if d == 8 {
        '8'
    } else {
        '9'
    }
}

/// Appends the decimal digits of `n` to `out`.
pub fn push_decimal(out: &mut Vec<char>, n: u32)
    ensures
        final(out)@ == old(out)@ + dec_digits(n as nat),
    decreases n,
{
    if n < 10 {
        let c: char = match n {
            0 => '0',
            1 => '1',
            2 => '2',
            3 => '3',
            4 => '4',
            5 => '5',
            6 => '6',
            7 => '7',
            8 => '8',
            _ => '9',
        };
        out.push(c);
        proof {
            assert(final(out)@ =~= old(out)@ + dec_digits(n as nat));
        }
    } else {
        push_decimal(out, n / 10);
        let c: char = match n % 10 {
            0 => '0',
            1 => '1',
            2 => '2',
            3 => '3',
            4 => '4',
            5 => '5',
            6 => '6',
            7 => '7',
            8 => '8',
            _ => '9',
        };
        out.push(c);
        proof {
            assert(final(out)@ =~= old(out)@ + dec_digits(n as nat));
        }
    }
}

/// One pending-escape association: the sequences to emit just before
/// the character of cell `(x, y)`.
pub struct AuxEntry {
    pub x: u32,
    pub y: u32,
    pub text: Vec<char>,
}

/// The pending text stored for cell `(x, y)`: the text of the first
/// entry with that key, or nothing.
pub open spec fn aux_lookup(entries: Seq<AuxEntry>, x: int, y: int) -> Seq<char>
    decreases entries.len(),
{
    if entries.len() == 0 {
        Seq::empty()
    } else if entries[0].x == x && entries[0].y == y {
        entries[0].text@
    } else {
        aux_lookup(entries.drop_first(), x, y)
    }
}

/// The auxiliary escape map: pending control sequences keyed by screen
/// cell, spliced into the stream just before that cell's character at
/// flush time.
pub struct AuxMap {
    pub entries: Vec<AuxEntry>,
}

impl AuxMap {
    pub fn new() -> (r: AuxMap)
        ensures
            r.entries@.len() == 0,
    {
        AuxMap { entries: Vec::new() }
    }

    /// Appends `text` to the pending sequences of cell `(x, y)`.
    pub fn append(&mut self, x: u32, y: u32, text: &Vec<char>)
        ensures
            aux_view(final(self).entries@) == aux_view(old(self).entries@).insert(
                (x as int, y as int),
                aux_text(aux_view(old(self).entries@), x as int, y as int) + text@,
            ),
    {
        let n = self.entries.len();
        for i in 0..n
            invariant
                n == self.entries@.len(),
                self.entries@ == old(self).entries@,
                forall|j: int|
                    0 <= j < i ==> !((#[trigger] self.entries@[j]).x == x && self.entries@[j].y
                        == y),
        {
            if self.entries[i].x == x && self.entries[i].y == y {
                let mut joined = copy_chars(&self.entries[i].text);
                append_chars(&mut joined, text);
                let e = AuxEntry { x, y, text: joined };
                proof {
                    lemma_aux_lookup_first(old(self).entries@, i as int, x as int, y as int);
                    lemma_aux_view_lookup(old(self).entries@, x as int, y as int);
                    lemma_aux_view_nonempty_key(old(self).entries@, x as int, y as int);
                    lemma_aux_view_update(old(self).entries@, i as int, e);
                }
                self.entries.set(i, e);
                return ;
            }
        }
        let e = AuxEntry { x, y, text: copy_chars(text) };
        proof {
            lemma_aux_lookup_absent(old(self).entries@, x as int, y as int);
            lemma_aux_view_lookup(old(self).entries@, x as int, y as int);
            lemma_aux_view_nonempty_key(old(self).entries@, x as int, y as int);
            lemma_aux_view_push(old(self).entries@, e);
        }
        self.entries.push(e);
    }

    /// Drops every pending sequence (end of frame).
    pub fn clear(&mut self)
        ensures
            final(self).entries@.len() == 0,
    {
        self.entries.clear();
    }
}

/// The first matching entry determines the lookup.
proof fn lemma_aux_lookup_first(entries: Seq<AuxEntry>, i: int, x: int, y: int)
    requires
        0 <= i < entries.len(),
        entries[i].x == x && entries[i].y == y,
        forall|j: int| 0 <= j < i ==> !((#[trigger] entries[j]).x == x && entries[j].y == y),
    ensures
        aux_lookup(entries, x, y) == entries[i].text@,
    decreases i,
{
    if i > 0 {
        lemma_aux_lookup_first(entries.drop_first(), i - 1, x, y);
    }
}

/// With no matching entry the lookup is empty.
proof fn lemma_aux_lookup_absent(entries: Seq<AuxEntry>, x: int, y: int)
    requires
        forall|j: int|
            0 <= j < entries.len() ==> !((#[trigger] entries[j]).x == x && entries[j].y == y),
    ensures
        aux_lookup(entries, x, y) == Seq::<char>::empty(),
    decreases entries.len(),
{
    if entries.len() > 0 {
        lemma_aux_lookup_absent(entries.drop_first(), x, y);
    }
}

/// A fresh copy of a character list.
pub fn copy_chars(src: &Vec<char>) -> (r: Vec<char>)
    ensures
        r@ == src@,
{
    let mut r: Vec<char> = Vec::new();
    let n = src.len();
    for i in 0..n
        invariant
            n == src@.len(),
            r@ == src@.take(i as int),
    {
        r.push(src[i]);
        proof {
            assert(r@ =~= src@.take(i + 1));
        }
    }
    proof {
        assert(src@.take(n as int) =~= src@);
    }
    r
}

/// Appends all of `src` to `dst`.
pub fn append_chars(dst: &mut Vec<char>, src: &Vec<char>)
    ensures
        final(dst)@ == old(dst)@ + src@,
{
    let n = src.len();
    for i in 0..n
        invariant
            n == src@.len(),
            dst@ == old(dst)@ + src@.take(i as int),
    {
        dst.push(src[i]);
        proof {
            assert(dst@ =~= old(dst)@ + src@.take(i + 1));
        }
    }
    proof {
        assert(src@.take(n as int) =~= src@);
    }
}

/// The pending-escape map as a mathematical map from cell to text;
/// the first entry of a key wins.
pub open spec fn aux_view(entries: Seq<AuxEntry>) -> Map<(int, int), Seq<char>>
    decreases entries.len(),
{
    if entries.len() == 0 {
        Map::empty()
    } else {
        aux_view(entries.drop_first()).insert(
            (entries[0].x as int, entries[0].y as int),
            entries[0].text@,
        )
    }
}

/// The pending text of a cell under the map view: the stored text, or
/// nothing.
pub open spec fn aux_text(aux: Map<(int, int), Seq<char>>, x: int, y: int) -> Seq<char> {
    if aux.contains_key((x, y)) {
        aux[(x, y)]
    } else {
        Seq::empty()
    }
}

/// The list lookup and the map view agree.
pub proof fn lemma_aux_view_lookup(entries: Seq<AuxEntry>, x: int, y: int)
    ensures
        aux_text(aux_view(entries), x, y) == aux_lookup(entries, x, y),
    decreases entries.len(),
{
    if entries.len() > 0 {
        lemma_aux_view_lookup(entries.drop_first(), x, y);
    }
}

/// Updating the first entry of a key rewrites that key in the view.
proof fn lemma_aux_view_update(entries: Seq<AuxEntry>, i: int, e: AuxEntry)
    requires
        0 <= i < entries.len(),
        entries[i].x == e.x && entries[i].y == e.y,
        forall|j: int| 0 <= j < i ==> !((#[trigger] entries[j]).x == e.x && entries[j].y == e.y),
    ensures
        aux_view(entries.update(i, e)) =~= aux_view(entries).insert(
            (e.x as int, e.y as int),
            e.text@,
        ),
    decreases entries.len(),
{
    let upd = entries.update(i, e);
    if i == 0 {
        assert(upd.drop_first() =~= entries.drop_first());
        assert(upd[0] == e);
    } else {
        assert(upd.drop_first() =~= entries.drop_first().update(i - 1, e));
        lemma_aux_view_update(entries.drop_first(), i - 1, e);
        assert(upd[0] == entries[0]);
        assert(!(entries[0].x == e.x && entries[0].y == e.y));
    }
}

/// A key is in the view exactly when some entry carries it.
pub proof fn lemma_aux_view_nonempty_key(entries: Seq<AuxEntry>, x: int, y: int)
    ensures
        aux_view(entries).contains_key((x, y)) <==> exists|j: int|
            0 <= j < entries.len() && (#[trigger] entries[j]).x == x && entries[j].y == y,
    decreases entries.len(),
{
    if entries.len() > 0 {
        lemma_aux_view_nonempty_key(entries.drop_first(), x, y);
        if entries[0].x == x && entries[0].y == y {
        } else {
            if aux_view(entries).contains_key((x, y)) {
                let j = choose|j: int|
                    0 <= j < entries.drop_first().len() && (#[trigger] entries.drop_first()[j]).x
                        == x && entries.drop_first()[j].y == y;
                assert(entries[j + 1].x == x && entries[j + 1].y == y);
            }
            if exists|j: int|
                0 <= j < entries.len() && (#[trigger] entries[j]).x == x && entries[j].y == y {
                let j = choose|j: int|
                    0 <= j < entries.len() && (#[trigger] entries[j]).x == x && entries[j].y == y;
                assert(j >= 1);
                assert(entries.drop_first()[j - 1].x == x && entries.drop_first()[j - 1].y == y);
            }
        }
    }
}

/// Appending an entry with a fresh key adds that key to the view.
proof fn lemma_aux_view_push(entries: Seq<AuxEntry>, e: AuxEntry)
    requires
        forall|j: int|
            0 <= j < entries.len() ==> !((#[trigger] entries[j]).x == e.x && entries[j].y == e.y),
    ensures
        aux_view(entries.push(e)) =~= aux_view(entries).insert((e.x as int, e.y as int), e.text@),
    decreases entries.len(),
{
    let pushed = entries.push(e);
    if entries.len() == 0 {
        assert(pushed.drop_first() =~= Seq::<AuxEntry>::empty());
        assert(pushed[0] == e);
        assert(aux_view(pushed) == aux_view(pushed.drop_first()).insert(
            (e.x as int, e.y as int),
            e.text@,
        ));
        assert(aux_view(pushed.drop_first()) == Map::<(int, int), Seq<char>>::empty());
        assert(aux_view(entries) == Map::<(int, int), Seq<char>>::empty());
        assert(aux_view(pushed) =~= aux_view(entries).insert((e.x as int, e.y as int), e.text@));
    } else {
        assert(pushed.drop_first() =~= entries.drop_first().push(e));
        lemma_aux_view_push(entries.drop_first(), e);
        assert(pushed[0] == entries[0]);
        assert(!(entries[0].x == e.x && entries[0].y == e.y));
        let k1 = (e.x as int, e.y as int);
        let k0 = (entries[0].x as int, entries[0].y as int);
        assert(k0 != k1);
        assert(aux_view(pushed) == aux_view(entries.drop_first()).insert(k1, e.text@).insert(
            k0,
            entries[0].text@,
        ));
        assert(aux_view(entries.drop_first()).insert(k1, e.text@).insert(k0, entries[0].text@)
            =~= aux_view(entries.drop_first()).insert(k0, entries[0].text@).insert(k1, e.text@));
        assert(aux_view(entries) == aux_view(entries.drop_first()).insert(k0, entries[0].text@));
        assert(aux_view(pushed) =~= aux_view(entries).insert(k1, e.text@));
    }
}

/// The cursor after advancing to column `x`: while the column exceeds
/// the width, a row is consumed.
pub open spec fn wrapped(x: int, y: int, width: int) -> (int, int)
    decreases x,
{
    if width < 1 || x <= width {
        (x, y)
    } else {
        wrapped(x - width, y + 1, width)
    }
}

/// Wrapping never lowers the row and ends at or left of the width.
pub proof fn lemma_wrapped_bounds(x: int, y: int, width: int)
    requires
        width >= 1,
        0 <= x,
    ensures
        wrapped(x, y, width).1 >= y,
        0 <= wrapped(x, y, width).0,
        x <= width ==> wrapped(x, y, width).0 == x,
        wrapped(x, y, width).0 <= if x <= width {
            x
        } else {
            width
        },
    decreases x,
{
    if x > width {
        lemma_wrapped_bounds(x - width, y + 1, width);
    }
}

/// The cursor-positioning escape `ESC [ <row> ; <column> H`.
pub open spec fn goto_seq(y: int, x: int) -> Seq<char> {
    seq!['\u{1b}', '['] + dec_digits(y as nat) + seq![';'] + dec_digits(x as nat) + seq!['H']
}

/// Appends the cursor-positioning escape for `(row, column)`.
pub fn push_goto(out: &mut Vec<char>, y: u32, x: u32)
    ensures
        final(out)@ == old(out)@ + goto_seq(y as int, x as int),
{
    out.push('\u{1b}');
    out.push('[');
    push_decimal(out, y);
    out.push(';');
    push_decimal(out, x);
    out.push('H');
    proof {
        assert(final(out)@ =~= old(out)@ + goto_seq(y as int, x as int));
    }
}

/// The running state of the serialized emission pass: the characters
/// emitted so far, the implicit cursor, and whether a repositioning
/// escape is owed after a run of suppressed empty cells.
pub struct EmitState {
    pub out: Seq<char>,
    pub x: int,
    pub y: int,
    pub pending: bool,
}

/// One cell of the emission pass: pending escapes of the cell first;
/// the empty sentinel suppresses output and owes a reposition; any
/// other character is emitted, preceded by the owed reposition if one
/// is due; then the cursor advances, emitting a reposition at a row
/// boundary.
pub open spec fn emit_step(
    st: EmitState,
    c: char,
    aux: Map<(int, int), Seq<char>>,
    width: int,
) -> EmitState {
    let o1 = st.out + aux_text(aux, st.x, st.y);
    let o2 = if c == '\0' {
        o1
    } else if st.pending {
        o1 + goto_seq(st.y, st.x) + seq![c]
    } else {
        o1 + seq![c]
    };
    let pend2 = if c == '\0' {
        true
    } else {
        false
    };
    let x1 = st.x + 1;
    if x1 > width {
        EmitState {
            out: o2 + goto_seq(st.y + 1, x1 - width),
            x: x1 - width,
            y: st.y + 1,
            pending: pend2,
        }
    } else {
        EmitState { out: o2, x: x1, y: st.y, pending: pend2 }
    }
}

/// The emission pass over the cells from index `i` on.
pub open spec fn emit_cells(
    st: EmitState,
    cells: Seq<char>,
    i: int,
    aux: Map<(int, int), Seq<char>>,
    width: int,
) -> EmitState
    decreases cells.len() - i,
{
    if i < 0 || i >= cells.len() {
        st
    } else {
        emit_cells(emit_step(st, cells[i], aux, width), cells, i + 1, aux, width)
    }
}

/// The emitted output threads through as a plain prefix: seeding the
/// pass with earlier output only prepends it.
pub proof fn lemma_emit_prefix(
    pre: Seq<char>,
    st: EmitState,
    cells: Seq<char>,
    i: int,
    aux: Map<(int, int), Seq<char>>,
    width: int,
)
    ensures
        ({
            let seeded = emit_cells(
                EmitState { out: pre + st.out, x: st.x, y: st.y, pending: st.pending },
                cells,
                i,
                aux,
                width,
            );
            let plain = emit_cells(st, cells, i, aux, width);
            seeded.out == pre + plain.out && seeded.x == plain.x && seeded.y == plain.y
                && seeded.pending == plain.pending
        }),
    decreases cells.len() - i,
{
    if !(i < 0 || i >= cells.len()) {
        let s1 = emit_step(st, cells[i], aux, width);
        let s1p = emit_step(
            EmitState { out: pre + st.out, x: st.x, y: st.y, pending: st.pending },
            cells[i],
            aux,
            width,
        );
        assert(s1p.out =~= pre + s1.out);
        assert(s1p == (EmitState { out: pre + s1.out, x: s1.x, y: s1.y, pending: s1.pending }));
        lemma_emit_prefix(pre, s1, cells, i + 1, aux, width);
    }
}

/// The full emission of a frame, starting from a homed cursor.
pub open spec fn emitted_frame(
    cells: Seq<char>,
    aux: Map<(int, int), Seq<char>>,
    width: int,
) -> EmitState {
    emit_cells(EmitState { out: Seq::empty(), x: 0, y: 0, pending: false }, cells, 0, aux, width)
}

/// The style escape `ESC [ <code> m`.
pub open spec fn style_escape(style: ANSIStyle) -> Seq<char> {
    seq!['\u{1b}', '['] + dec_digits(style_code(style) as nat) + seq!['m']
}

/// The low-level terminal writer: a character raster target, a cursor,
/// the pending-escape map, and the in-memory output stream.
pub struct ANSIHelper {
    pub x: u32,
    pub y: u32,
    pub width: u32,
    pub height: u32,
    pub screen: Screen<char>,
    pub aux: AuxMap,
    pub stream: Vec<char>,
}

/// A cell run written into a flat buffer starting at `start`; cells
/// beyond the buffer are dropped.
pub open spec fn write_run(cells: Seq<char>, start: int, text: Seq<char>) -> Seq<char> {
    Seq::new(
        cells.len(),
        |j: int|
            if start <= j < start + text.len() {
                text[j - start]
            } else {
                cells[j]
            },
    )
}

impl ANSIHelper {
    /// Invariant: the raster target matches the stored dimensions, and
    /// the width is positive (the wrap arithmetic needs a row).
    pub open spec fn wf(&self) -> bool {
        self.screen.wf() && self.screen.width == self.width && self.screen.height == self.height
            && self.width >= 1
    }

    /// The map view of the pending escapes.
    pub open spec fn aux_map(&self) -> Map<(int, int), Seq<char>> {
        aux_view(self.aux.entries@)
    }

    /// A fresh 120 x 50 terminal writer, cursor homed, all buffers
    /// empty.
    pub fn new() -> (r: ANSIHelper)
        ensures
            r.wf(),
            r.x == 0 && r.y == 0,
            r.width == 120 && r.height == 50,
            forall|i: int|
                0 <= i < r.screen.pixels@.len() ==> #[trigger] r.screen.pixels@[i] == '\0',
            r.aux_map() == Map::<(int, int), Seq<char>>::empty(),
            r.stream@ == Seq::<char>::empty(),
    {
        let w: u32 = 120;
        let h: u32 = 50;
        ANSIHelper {
            x: 0,
            y: 0,
            width: w,
            height: h,
            screen: Screen::<char>::new(w, h),
            aux: AuxMap::new(),
            stream: Vec::new(),
        }
    }

    /// Copies `text` into the raster target at the cursor and advances
    /// the cursor, wrapping rows as needed.  Only a start cell beyond
    /// the addressable range is an error; characters that fall beyond
    /// the buffer are dropped silently.
    pub fn write(&mut self, text: &str) -> (r: Result<(), &'static str>)
        requires
            old(self).wf(),
            wrapped(
                old(self).x + text@.len(),
                old(self).y as int,
                old(self).width as int,
            ).1 <= u32::MAX,
        ensures
            final(self).wf(),
            final(self).width == old(self).width,
            final(self).height == old(self).height,
            final(self).aux_map() == old(self).aux_map(),
            final(self).stream@ == old(self).stream@,
            r is Ok <==> (old(self).y as int) * (old(self).width as int) + old(self).x
                <= usize::MAX,
            r is Ok ==> final(self).screen.pixels@ == write_run(
                old(self).screen.pixels@,
                (old(self).y as int) * (old(self).width as int) + old(self).x,
                text@,
            ),
            r is Ok ==> (final(self).x as int, final(self).y as int) == wrapped(
                old(self).x + text@.len(),
                old(self).y as int,
                old(self).width as int,
            ),
            r is Err ==> final(self).screen.pixels@ == old(self).screen.pixels@ && final(self).x
                == old(self).x && final(self).y == old(self).y,
    {
        let chars = str_chars(text);
        let ghost n = text@.len();
        let len: usize = chars.len();
        let res = self.screen.push_pixels(self.x, self.y, chars);
        if res.is_err() {
            return Err("Desired pixel index does not fit into usize.");
        }
        proof {
            assert(self.screen.pixels@ =~= write_run(
                old(self).screen.pixels@,
                (old(self).y as int) * (old(self).width as int) + old(self).x,
                text@,
            ));
        }
        self.advance_by(len);
        proof {
            lemma_wrapped_bounds(old(self).x + text@.len(), old(self).y as int, old(self).width as int);
        }
        Ok(())
    }

    /// Advances the cursor by `length` cells, wrapping to the next row
    /// whenever the column exceeds the width.
    fn advance_by(&mut self, length: usize)
        requires
            old(self).wf(),
            wrapped(
                old(self).x + length,
                old(self).y as int,
                old(self).width as int,
            ).1 <= u32::MAX,
        ensures
            *final(self) == (ANSIHelper { x: final(self).x, y: final(self).y, ..*old(self) }),
            final(self).x as int == wrapped(
                old(self).x + length,
                old(self).y as int,
                old(self).width as int,
            ).0,
            final(self).y as int == wrapped(
                old(self).x + length,
                old(self).y as int,
                old(self).width as int,
            ).1,
            final(self).wf(),
    {
        let mut cx: u128 = self.x as u128 + length as u128;
        let mut cy: u64 = self.y as u64;
        let w128: u128 = self.width as u128;
        proof {
            lemma_wrapped_bounds(old(self).x + length, old(self).y as int, old(self).width as int);
        }
        while cx > w128
            invariant
                self.width >= 1,
                w128 == self.width,
                0 <= cy,
                wrapped(cx as int, cy as int, self.width as int) == wrapped(
                    old(self).x + length,
                    old(self).y as int,
                    old(self).width as int,
                ),
                wrapped(cx as int, cy as int, self.width as int).1 <= u32::MAX,
            decreases cx,
        {
            proof {
                lemma_wrapped_bounds(cx as int, cy as int, self.width as int);
                lemma_wrapped_bounds(cx - w128, cy + 1, self.width as int);
            }
            cx = cx - w128;
            cy = cy + 1;
        }
        proof {
            lemma_wrapped_bounds(cx as int, cy as int, self.width as int);
        }
        self.x = cx as u32;
        self.y = cy as u32;
    }

    /// Appends pending control text for cell `(x, y)`, spliced in just
    /// before that cell's character at flush time.
    pub fn write_aux(&mut self, x: u32, y: u32, text: &str)
        ensures
            *final(self) == (ANSIHelper { aux: final(self).aux, ..*old(self) }),
            final(self).aux_map() == old(self).aux_map().insert(
                (x as int, y as int),
                aux_text(old(self).aux_map(), x as int, y as int) + text@,
            ),
    {
        let chars = str_chars(text);
        self.aux.append(x, y, &chars);
    }

    /// Serializes the frame: homes the cursor, walks the raster target
    /// emitting pending escapes and characters while suppressing runs
    /// of empty cells, then clears the raster target and the pending
    /// escapes.
    pub fn flush(&mut self)
        requires
            old(self).wf(),
        ensures
            final(self).wf(),
            final(self).width == old(self).width,
            final(self).height == old(self).height,
            final(self).stream@ == old(self).stream@ + goto_seq(0, 0) + emitted_frame(
                old(self).screen.pixels@,
                old(self).aux_map(),
                old(self).width as int,
            ).out,
            final(self).x as int == emitted_frame(
                old(self).screen.pixels@,
                old(self).aux_map(),
                old(self).width as int,
            ).x,
            final(self).y as int == emitted_frame(
                old(self).screen.pixels@,
                old(self).aux_map(),
                old(self).width as int,
            ).y,
            forall|i: int|
                0 <= i < final(self).screen.pixels@.len() ==> #[trigger] final(self).screen.pixels@[i]
                    == '\0',
            final(self).screen.pixels@.len() == old(self).screen.pixels@.len(),
            final(self).aux_map() == Map::<(int, int), Seq<char>>::empty(),
    {
        self.go_to_immediate(0, 0);
        let ghost cells0 = self.screen.pixels@;
        let ghost aux0 = self.aux_map();
        let ghost full = emitted_frame(cells0, aux0, self.width as int);
        let mut cx: u32 = 0;
        let mut cy: u32 = 0;
        let mut pend: bool = false;
        let n = self.screen.pixels.len();
        proof {
            assert(n <= u32::MAX);
        }
        for i in 0..n
            invariant
                self.wf(),
                self.width == old(self).width,
                self.height == old(self).height,
                n == self.screen.pixels@.len(),
                self.screen.pixels@ == cells0,
                self.aux_map() == aux0,
                aux0 == old(self).aux_map(),
                full == emitted_frame(cells0, aux0, self.width as int),
                n <= u32::MAX,
                cx <= self.width,
                cy <= i,
                emit_cells(
                    EmitState { out: self.stream@, x: cx as int, y: cy as int, pending: pend },
                    cells0,
                    i as int,
                    aux0,
                    self.width as int,
                ) == emit_cells(
                    EmitState {
                        out: old(self).stream@ + goto_seq(0, 0),
                        x: 0,
                        y: 0,
                        pending: false,
                    },
                    cells0,
                    0,
                    aux0,
                    self.width as int,
                ),
        {
            let ghost st_pre = EmitState {
                out: self.stream@,
                x: cx as int,
                y: cy as int,
                pending: pend,
            };
            let c = self.screen.pixels[i];
            let a = self.aux.get_copy(cx, cy);
            proof {
                lemma_aux_view_lookup(self.aux.entries@, cx as int, cy as int);
            }
            append_chars(&mut self.stream, &a);
            if c == '\0' {
                pend = true;
            } else {
                if pend {
                    push_goto(&mut self.stream, cy, cx);
                }
                self.stream.push(c);
                pend = false;
            }
            let nx: u64 = cx as u64 + 1;
            if nx > self.width as u64 {
                cx = (nx - self.width as u64) as u32;
                cy = cy + 1;
                push_goto(&mut self.stream, cy, cx);
            } else {
                cx = nx as u32;
            }
            proof {
                let st_post = emit_step(st_pre, cells0[i as int], aux0, self.width as int);
                assert(self.stream@ =~= st_post.out);
                assert(cx as int == st_post.x && cy as int == st_post.y && pend
                    == st_post.pending);
                assert(EmitState { out: self.stream@, x: cx as int, y: cy as int, pending: pend }
                    == st_post);
            }
        }
        proof {
            let st0 = EmitState { out: Seq::<char>::empty(), x: 0, y: 0, pending: false };
            let pre = old(self).stream@ + goto_seq(0, 0);
            lemma_emit_prefix(pre, st0, cells0, 0, aux0, self.width as int);
            assert(pre + Seq::<char>::empty() =~= pre);
            assert((EmitState { out: pre + st0.out, x: 0, y: 0, pending: false }) == (EmitState {
                out: pre,
                x: 0,
                y: 0,
                pending: false,
            }));
            assert(self.stream@ =~= old(self).stream@ + goto_seq(0, 0) + emitted_frame(
                cells0,
                aux0,
                self.width as int,
            ).out);
        }
        self.screen.clear();
        self.aux.clear();
        self.x = cx;
        self.y = cy;
    }

    /// Moves the cursor without touching the terminal.
    pub fn go_to(&mut self, x: u32, y: u32)
        ensures
            *final(self) == (ANSIHelper { x, y, ..*old(self) }),
    {
        self.x = x;
        self.y = y;
    }

    /// Moves the cursor and emits the positioning escape at once,
    /// bypassing the pending-escape map.
    pub fn go_to_immediate(&mut self, x: u32, y: u32)
        ensures
            *final(self) == (ANSIHelper { x, y, stream: final(self).stream, ..*old(self) }),
            final(self).stream@ == old(self).stream@ + goto_seq(y as int, x as int),
    {
        self.x = x;
        self.y = y;
        push_goto(&mut self.stream, y, x);
    }

    /// Queues a style change for the current cell: `ESC [ <code> m`.
    pub fn set_style(&mut self, style: ANSIStyle)
        ensures
            *final(self) == (ANSIHelper { aux: final(self).aux, ..*old(self) }),
            final(self).aux_map() == old(self).aux_map().insert(
                (old(self).x as int, old(self).y as int),
                aux_text(old(self).aux_map(), old(self).x as int, old(self).y as int)
                    + style_escape(style),
            ),
    {
        let mut v: Vec<char> = Vec::new();
        v.push('\u{1b}');
        v.push('[');
        push_decimal(&mut v, style.code());
        v.push('m');
        proof {
            assert(v@ =~= style_escape(style));
        }
        self.aux.append(self.x, self.y, &v);
    }

    /// Queues a carriage return for the current cell.
    pub fn carriage_return(&mut self)
        ensures
            *final(self) == (ANSIHelper { aux: final(self).aux, ..*old(self) }),
            final(self).aux_map() == old(self).aux_map().insert(
                (old(self).x as int, old(self).y as int),
                aux_text(old(self).aux_map(), old(self).x as int, old(self).y as int) + seq!['\r'],
            ),
    {
        let mut v: Vec<char> = Vec::new();
        v.push('\r');
        self.aux.append(self.x, self.y, &v);
        proof {
            assert(v@ =~= seq!['\r']);
        }
    }

    /// Queues a terminal bell for the current cell.
    pub fn beep(&mut self)
        ensures
            *final(self) == (ANSIHelper { aux: final(self).aux, ..*old(self) }),
            final(self).aux_map() == old(self).aux_map().insert(
                (old(self).x as int, old(self).y as int),
                aux_text(old(self).aux_map(), old(self).x as int, old(self).y as int)
                    + seq!['\u{7}'],
            ),
    {
        let mut v: Vec<char> = Vec::new();
        v.push('\u{7}');
        self.aux.append(self.x, self.y, &v);
        proof {
            assert(v@ =~= seq!['\u{7}']);
        }
    }

    /// Emits the clear-from-cursor escape immediately.
    pub fn full_clear(&mut self)
        ensures
            *final(self) == (ANSIHelper { stream: final(self).stream, ..*old(self) }),
            final(self).stream@ == old(self).stream@ + seq!['\u{1b}', '[', '0', 'J'],
    {
        self.csi_start_immediate();
        self.stream.push('0');
        self.stream.push('J');
        proof {
            assert(final(self).stream@ =~= old(self).stream@ + seq!['\u{1b}', '[', '0', 'J']);
        }
    }

    /// Emits the control-sequence introducer immediately.
    pub fn csi_start_immediate(&mut self)
        ensures
            *final(self) == (ANSIHelper { stream: final(self).stream, ..*old(self) }),
            final(self).stream@ == old(self).stream@ + seq!['\u{1b}', '['],
    {
        self.escape_start_immediate();
        self.stream.push('[');
        proof {
            assert(final(self).stream@ =~= old(self).stream@ + seq!['\u{1b}', '[']);
        }
    }

    /// Queues the control-sequence introducer for the current cell.
    pub fn csi_start(&mut self)
        ensures
            *final(self) == (ANSIHelper { aux: final(self).aux, ..*old(self) }),
            final(self).aux_map() == old(self).aux_map().insert(
                (old(self).x as int, old(self).y as int),
                aux_text(old(self).aux_map(), old(self).x as int, old(self).y as int) + seq![
                    '\u{1b}',
                    '[',
                ],
            ),
    {
        let mut v: Vec<char> = Vec::new();
        v.push('\u{1b}');
        v.push('[');
        self.aux.append(self.x, self.y, &v);
        proof {
            assert(v@ =~= seq!['\u{1b}', '[']);
        }
    }

    /// Emits the escape character immediately.
    pub fn escape_start_immediate(&mut self)
        ensures
            *final(self) == (ANSIHelper { stream: final(self).stream, ..*old(self) }),
            final(self).stream@ == old(self).stream@ + seq!['\u{1b}'],
    {
        self.stream.push('\u{1b}');
        proof {
            assert(final(self).stream@ =~= old(self).stream@ + seq!['\u{1b}']);
        }
    }

    /// Queues the escape character for the current cell.
    pub fn escape_start(&mut self)
        ensures
            *final(self) == (ANSIHelper { aux: final(self).aux, ..*old(self) }),
            final(self).aux_map() == old(self).aux_map().insert(
                (old(self).x as int, old(self).y as int),
                aux_text(old(self).aux_map(), old(self).x as int, old(self).y as int) + seq![
                    '\u{1b}',
                ],
            ),
    {
        let mut v: Vec<char> = Vec::new();
        v.push('\u{1b}');
        self.aux.append(self.x, self.y, &v);
        proof {
            assert(v@ =~= seq!['\u{1b}']);
        }
    }

    /// Hands out everything written to the stream so far and empties
    /// it; the caller forwards it to the terminal.
    pub fn take_output(&mut self) -> (r: Vec<char>)
        ensures
            r@ == old(self).stream@,
            *final(self) == (ANSIHelper { stream: final(self).stream, ..*old(self) }),
            final(self).stream@ == Seq::<char>::empty(),
    {
        let r = copy_chars(&self.stream);
        self.stream.clear();
        r
    }
}

impl AuxMap {
    /// A copy of the pending text of cell `(x, y)`, or nothing.
    pub fn get_copy(&self, x: u32, y: u32) -> (r: Vec<char>)
        ensures
            r@ == aux_lookup(self.entries@, x as int, y as int),
    {
        let n = self.entries.len();
        for i in 0..n
            invariant
                n == self.entries@.len(),
                forall|j: int|
                    0 <= j < i ==> !((#[trigger] self.entries@[j]).x == x && self.entries@[j].y
                        == y),
        {
            if self.entries[i].x == x && self.entries[i].y == y {
                let r = copy_chars(&self.entries[i].text);
                proof {
                    lemma_aux_lookup_first(self.entries@, i as int, x as int, y as int);
                }
                return r;
            }
        }
        proof {
            lemma_aux_lookup_absent(self.entries@, x as int, y as int);
        }
        Vec::new()
    }
}

/// The whole drawing state of the terminal backend, as mathematical
/// values: raster cells, pending escapes, cursor, the set of cells
/// drawn this frame, and the occlusion record.
pub struct AnsiState {
    pub cells: Seq<char>,
    pub aux: Map<(int, int), Seq<char>>,
    pub cx: int,
    pub cy: int,
    pub cur: Seq<(u32, u32)>,
    pub zbuf: Seq<DepthEntry>,
}

/// One text write through the occlusion test: a rejected write changes
/// nothing; a target cell that does not fit the terminal's dimensions
/// fails with nothing changed; otherwise the style (if any) queues its
/// escape at the target cell, the text is copied into the raster
/// target from the target cell on with the cursor advancing, and the
/// cell and depth are recorded.
pub open spec fn ansi_draw(
    s: AnsiState,
    x: u32,
    y: u32,
    text: Seq<char>,
    style: Option<ANSIStyle>,
    z: i64,
    width: int,
    height: int,
) -> (AnsiState, bool) {
    if occluded_spec(s.zbuf, x, y, z as int) {
        (s, true)
    } else if !((x as int) < width && (y as int) < height) {
        (s, false)
    } else {
        let aux2 = match style {
            Option::Some(st) => s.aux.insert(
                (x as int, y as int),
                aux_text(s.aux, x as int, y as int) + style_escape(st),
            ),
            Option::None => s.aux,
        };
        let start = (y as int) * width + (x as int);
        (
            AnsiState {
                cells: write_run(s.cells, start, text),
                aux: aux2,
                cx: wrapped(x + text.len(), y as int, width).0,
                cy: wrapped(x + text.len(), y as int, width).1,
                cur: s.cur.push((x, y)),
                zbuf: s.zbuf.push(DepthEntry { x, y, z: Fx { raw: z } }),
            },
            true,
        )
    }
}

/// The glyph of the fixed depth ladder, nearest threshold first.
pub open spec fn glyph_of(z: int) -> Seq<char> {
    if z > 16 * (FX_ONE as int) {
        seq!['.']
    } else if z > 8 * (FX_ONE as int) {
        seq!['u']
    } else if z > 4 * (FX_ONE as int) {
        seq!['w']
    } else if z > 2 * (FX_ONE as int) {
        seq!['W']
    } else {
        seq!['@']
    }
}

/// The glyph of the fixed depth ladder, as a string slice.
fn glyph_for(z: Fx) -> (c: &'static str)
    ensures
        c@ == glyph_of(z.raw as int),
        c@.len() == 1,
{
    proof {
        reveal_strlit(".");
        reveal_strlit("u");
        reveal_strlit("w");
        reveal_strlit("W");
        reveal_strlit("@");
    }
    if z.raw > 16 * FX_ONE {
        "."
    } else if z.raw > 8 * FX_ONE {
        "u"
    } else if z.raw > 4 * FX_ONE {
        "w"
    } else if z.raw > 2 * FX_ONE {
        "W"
    } else {
        "@"
    }
}

/// One candidate cell/vertex pair of the terminal splat rasterizer.
pub open spec fn ansi_rast_step(
    s: AnsiState,
    x: u32,
    y: u32,
    v: crate::vector::Vector3,
    t: Fx,
    width: int,
    height: int,
) -> AnsiState {
    if crate::pixel::within_spec(x, y, v, t) {
        ansi_draw(s, x, y, glyph_of(v.z.raw as int), Option::None, v.z.raw, width, height).0
    } else {
        s
    }
}

/// The state after testing cell `(x, y)` against the first `k` vertices.
pub open spec fn ansi_rast_verts_upto(
    s: AnsiState,
    x: u32,
    y: u32,
    verts: Seq<crate::vector::Vector3>,
    k: int,
    t: Fx,
    width: int,
    height: int,
) -> AnsiState
    decreases k,
{
    if k <= 0 || k > verts.len() {
        s
    } else {
        ansi_rast_step(
            ansi_rast_verts_upto(s, x, y, verts, k - 1, t, width, height),
            x,
            y,
            verts[k - 1],
            t,
            width,
            height,
        )
    }
}

/// The state after processing the first `y` rows of column `x`.
pub open spec fn ansi_rast_rows_upto(
    s: AnsiState,
    x: u32,
    y: int,
    verts: Seq<crate::vector::Vector3>,
    t: Fx,
    width: int,
    height: int,
) -> AnsiState
    decreases y,
{
    if y <= 0 || y > u32::MAX + 1 {
        s
    } else {
        ansi_rast_verts_upto(
            ansi_rast_rows_upto(s, x, y - 1, verts, t, width, height),
            x,
            (y - 1) as u32,
            verts,
            verts.len() as int,
            t,
            width,
            height,
        )
    }
}

/// The state after processing the first `x` columns, each over `height`
/// rows.
pub open spec fn ansi_rast_cols_upto(
    s: AnsiState,
    x: int,
    height: int,
    verts: Seq<crate::vector::Vector3>,
    t: Fx,
    width: int,
) -> AnsiState
    decreases x,
{
    if x <= 0 || x > u32::MAX + 1 {
        s
    } else {
        ansi_rast_rows_upto(
            ansi_rast_cols_upto(s, x - 1, height, verts, t, width),
            (x - 1) as u32,
            height,
            verts,
            t,
            width,
            height,
        )
    }
}

/// The full terminal splat rasterization pass.
pub open spec fn ansi_rasterized(
    s: AnsiState,
    width: int,
    height: int,
    verts: Seq<crate::vector::Vector3>,
    t: Fx,
) -> AnsiState {
    ansi_rast_cols_upto(s, width, height, verts, t, width)
}

/// Whether a cell is listed in a drawn-cells list.
pub open spec fn listed(cur: Seq<(u32, u32)>, p: (u32, u32)) -> bool {
    exists|j: int| 0 <= j < cur.len() && #[trigger] cur[j] == p
}

/// The raster target after the diffing pass: every previously drawn
/// cell that is not drawn this frame is explicitly blanked.
pub open spec fn clears_applied(
    cells: Seq<char>,
    prevs: Seq<(u32, u32)>,
    curs: Seq<(u32, u32)>,
    i: int,
    width: int,
) -> Seq<char>
    decreases prevs.len() - i,
{
    if i < 0 || i >= prevs.len() {
        cells
    } else {
        let p = prevs[i];
        let cells2 = if listed(curs, p) {
            cells
        } else {
            write_run(cells, (p.1 as int) * width + p.0, seq![' '])
        };
        clears_applied(cells2, prevs, curs, i + 1, width)
    }
}

/// A cell drawn last frame (`p` among `prevs`) and not drawn this
/// frame is explicitly blanked by the diffing pass: the frame handed
/// to the emission pass holds a space there, which the emission then
/// sends (a space is not the suppressed empty sentinel).
pub proof fn lemma_stale_cell_cleared(
    cells: Seq<char>,
    prevs: Seq<(u32, u32)>,
    curs: Seq<(u32, u32)>,
    width: int,
    p: (u32, u32),
)
    requires
        listed(prevs, p),
        !listed(curs, p),
        0 <= (p.1 as int) * width + p.0 < cells.len(),
    ensures
        clears_applied(cells, prevs, curs, 0, width)[(p.1 as int) * width + p.0] == ' ',
{
    lemma_stale_cell_from(cells, prevs, curs, 0, width, p);
}

proof fn lemma_stale_cell_from(
    cells: Seq<char>,
    prevs: Seq<(u32, u32)>,
    curs: Seq<(u32, u32)>,
    i: int,
    width: int,
    p: (u32, u32),
)
    requires
        0 <= i,
        (exists|j: int| i <= j < prevs.len() && #[trigger] prevs[j] == p) || cells[(p.1 as int)
            * width + p.0] == ' ',
        !listed(curs, p),
        0 <= (p.1 as int) * width + p.0 < cells.len(),
    ensures
        clears_applied(cells, prevs, curs, i, width)[(p.1 as int) * width + p.0] == ' ',
    decreases prevs.len() - i,
{
    let idx = (p.1 as int) * width + p.0;
    if i >= prevs.len() {
    } else {
        let q = prevs[i];
        let cells2 = if listed(curs, q) {
            cells
        } else {
            write_run(cells, (q.1 as int) * width + q.0, seq![' '])
        };
        assert(cells2.len() == cells.len());
        if q == p {
            assert(!listed(curs, q));
            assert(cells2[idx] == ' ');
        } else {
            if cells[idx] == ' ' {
                assert(cells2[idx] == ' ');
            } else {
                let j = choose|j: int| i <= j < prevs.len() && #[trigger] prevs[j] == p;
                assert(j != i);
                assert(i + 1 <= j < prevs.len() && prevs[j] == p);
            }
        }
        lemma_stale_cell_from(cells2, prevs, curs, i + 1, width, p);
    }
}

/// A cell drawn again this frame (`p` among `curs`) is never blanked
/// by the diffing pass: its character survives into the emitted frame
/// unchanged.  The width hypothesis (cells have unique indices) is
/// what the renderer's invariant maintains of every recorded cell.
pub proof fn lemma_live_cell_kept(
    cells: Seq<char>,
    prevs: Seq<(u32, u32)>,
    curs: Seq<(u32, u32)>,
    width: int,
    p: (u32, u32),
)
    requires
        listed(curs, p),
        p.0 < width,
        forall|j: int| 0 <= j < prevs.len() ==> (#[trigger] prevs[j]).0 < width,
    ensures
        ({
            let idx = (p.1 as int) * width + p.0;
            0 <= idx < cells.len() ==> clears_applied(cells, prevs, curs, 0, width)[idx]
                == cells[idx]
        }),
{
    lemma_live_cell_from(cells, prevs, curs, 0, width, p);
}

proof fn lemma_live_cell_from(
    cells: Seq<char>,
    prevs: Seq<(u32, u32)>,
    curs: Seq<(u32, u32)>,
    i: int,
    width: int,
    p: (u32, u32),
)
    requires
        0 <= i,
        listed(curs, p),
        p.0 < width,
        forall|j: int| 0 <= j < prevs.len() ==> (#[trigger] prevs[j]).0 < width,
    ensures
        ({
            let idx = (p.1 as int) * width + p.0;
            0 <= idx < cells.len() ==> clears_applied(cells, prevs, curs, i, width)[idx]
                == cells[idx]
        }),
    decreases prevs.len() - i,
{
    let idx = (p.1 as int) * width + p.0;
    if i >= prevs.len() || !(0 <= idx < cells.len()) {
    } else {
        let q = prevs[i];
        let qidx = (q.1 as int) * width + q.0;
        let cells2 = if listed(curs, q) {
            cells
        } else {
            write_run(cells, qidx, seq![' '])
        };
        assert(cells2.len() == cells.len());
        if !listed(curs, q) {
            assert(q != p);
            if qidx == idx {
                assert(q.1 == p.1 && q.0 == p.0) by (nonlinear_arith)
                    requires
                        (q.1 as int) * width + q.0 == (p.1 as int) * width + p.0,
                        0 <= q.0 < width,
                        0 <= p.0 < width,
                        0 <= q.1,
                        0 <= p.1,
                ;
                assert(false);
            }
            assert(cells2[idx] == cells[idx]);
        }
        lemma_live_cell_from(cells2, prevs, curs, i + 1, width, p);
    }
}

/// For a well-formed renderer the live-cell guarantee holds without
/// side conditions: a cell drawn this frame keeps its character
/// through the diffing pass, whatever was drawn last frame.
pub proof fn lemma_live_cell_kept_at_flush(r: ANSIRenderer, p: (u32, u32))
    requires
        r.wf(),
        listed(r.currently_set_pixels@, p),
    ensures
        ({
            let idx = (p.1 as int) * (r.helper.width as int) + p.0;
            0 <= idx < r.helper.screen.pixels@.len() ==> clears_applied(
                r.helper.screen.pixels@,
                r.previously_set_pixels@,
                r.currently_set_pixels@,
                0,
                r.helper.width as int,
            )[idx] == r.helper.screen.pixels@[idx]
        }),
{
    let j = choose|j: int|
        0 <= j < r.currently_set_pixels@.len() && #[trigger] r.currently_set_pixels@[j] == p;
    assert(p.0 < r.helper.width);
    lemma_live_cell_kept(
        r.helper.screen.pixels@,
        r.previously_set_pixels@,
        r.currently_set_pixels@,
        r.helper.width as int,
        p,
    );
}

/// A drawing state together with whether every write so far succeeded.
pub struct AnsiOutcome {
    pub s: AnsiState,
    pub ok: bool,
}

/// One source-image pixel of the terminal image splatter: pixels with
/// a zero red channel are skipped; the rest write the fixed marker
/// glyph at `position + (x, y)`, through the occlusion test.
pub open spec fn ansi_img_step(
    o: AnsiOutcome,
    img: crate::pixel::Image,
    pos: crate::vector::Vector2i,
    z: i64,
    x: int,
    y: int,
    width: int,
    height: int,
) -> AnsiOutcome {
    if !o.ok {
        o
    } else {
        let p = img.pixel_at(x, y);
        if p.r == 0 {
            o
        } else {
            let tx = pos.x + x;
            let ty = pos.y + y;
            if tx < 0 || tx > u32::MAX || ty < 0 || ty > u32::MAX {
                AnsiOutcome { s: o.s, ok: false }
            } else {
                let d = ansi_draw(
                    o.s,
                    tx as u32,
                    ty as u32,
                    seq!['&'],
                    Option::None,
                    z,
                    width,
                    height,
                );
                AnsiOutcome { s: d.0, ok: d.1 }
            }
        }
    }
}

/// The outcome after the first `x` pixels of source row `y`.
pub open spec fn ansi_img_row_upto(
    o: AnsiOutcome,
    img: crate::pixel::Image,
    pos: crate::vector::Vector2i,
    z: i64,
    y: int,
    x: int,
    width: int,
    height: int,
) -> AnsiOutcome
    decreases x,
{
    if x <= 0 || x > img.width {
        o
    } else {
        ansi_img_step(
            ansi_img_row_upto(o, img, pos, z, y, x - 1, width, height),
            img,
            pos,
            z,
            x - 1,
            y,
            width,
            height,
        )
    }
}

/// The outcome after the first `y` full source rows.
pub open spec fn ansi_img_rows_upto(
    o: AnsiOutcome,
    img: crate::pixel::Image,
    pos: crate::vector::Vector2i,
    z: i64,
    y: int,
    width: int,
    height: int,
) -> AnsiOutcome
    decreases y,
{
    if y <= 0 || y > img.height {
        o
    } else {
        ansi_img_row_upto(
            ansi_img_rows_upto(o, img, pos, z, y - 1, width, height),
            img,
            pos,
            z,
            y - 1,
            img.width as int,
            width,
            height,
        )
    }
}

/// The full terminal image splat.
pub open spec fn ansi_image_splatted(
    s: AnsiState,
    img: crate::pixel::Image,
    pos: crate::vector::Vector2i,
    z: i64,
    width: int,
    height: int,
) -> AnsiOutcome {
    ansi_img_rows_upto(AnsiOutcome { s, ok: true }, img, pos, z, img.height as int, width, height)
}

/// Once a row pass has failed, the remaining pixels change nothing.
pub proof fn lemma_ansi_img_row_abort(
    o: AnsiOutcome,
    img: crate::pixel::Image,
    pos: crate::vector::Vector2i,
    z: i64,
    y: int,
    x1: int,
    x2: int,
    width: int,
    height: int,
)
    requires
        0 <= x1 <= x2 <= img.width,
        !ansi_img_row_upto(o, img, pos, z, y, x1, width, height).ok,
    ensures
        ansi_img_row_upto(o, img, pos, z, y, x2, width, height) == ansi_img_row_upto(
            o,
            img,
            pos,
            z,
            y,
            x1,
            width,
            height,
        ),
    decreases x2 - x1,
{
    if x2 > x1 {
        lemma_ansi_img_row_abort(o, img, pos, z, y, x1, x2 - 1, width, height);
    }
}

/// Once a pass has failed, the remaining rows change nothing.
pub proof fn lemma_ansi_img_rows_abort(
    o: AnsiOutcome,
    img: crate::pixel::Image,
    pos: crate::vector::Vector2i,
    z: i64,
    y1: int,
    y2: int,
    width: int,
    height: int,
)
    requires
        0 <= y1 <= y2 <= img.height,
        !ansi_img_rows_upto(o, img, pos, z, y1, width, height).ok,
    ensures
        ansi_img_rows_upto(o, img, pos, z, y2, width, height) == ansi_img_rows_upto(
            o,
            img,
            pos,
            z,
            y1,
            width,
            height,
        ),
    decreases y2 - y1,
{
    if y2 > y1 {
        lemma_ansi_img_rows_abort(o, img, pos, z, y1, y2 - 1, width, height);
        let prev = ansi_img_rows_upto(o, img, pos, z, y2 - 1, width, height);
        if !(y2 <= 0 || y2 > img.height) {
            lemma_ansi_img_row_abort(
                prev,
                img,
                pos,
                z,
                y2 - 1,
                0,
                img.width as int,
                width,
                height,
            );
        }
    }
}

/// The ANSI terminal renderer: the writer, the two drawn-cell sets of
/// the double buffer, and the per-frame occlusion record.
pub struct ANSIRenderer {
    pub helper: ANSIHelper,
    pub currently_set_pixels: Vec<(u32, u32)>,
    pub previously_set_pixels: Vec<(u32, u32)>,
    pub z_buffer: OcclusionRecord,
}

impl ANSIRenderer {
    /// Invariant: the writer is well formed and every recorded cell
    /// lies within the terminal's dimensions (so cells have unique
    /// linear indices and blanking one can never touch another).
    pub open spec fn wf(&self) -> bool {
        self.helper.wf() && (forall|i: int|
            0 <= i < self.currently_set_pixels@.len() ==> ((
            #[trigger] self.currently_set_pixels@[i]).0 < self.helper.width
                && self.currently_set_pixels@[i].1 < self.helper.height)) && (forall|i: int|
            0 <= i < self.previously_set_pixels@.len() ==> ((
            #[trigger] self.previously_set_pixels@[i]).0 < self.helper.width
                && self.previously_set_pixels@[i].1 < self.helper.height))
    }

    /// This renderer's drawing state as mathematical values.
    pub open spec fn state(&self) -> AnsiState {
        AnsiState {
            cells: self.helper.screen.pixels@,
            aux: self.helper.aux_map(),
            cx: self.helper.x as int,
            cy: self.helper.y as int,
            cur: self.currently_set_pixels@,
            zbuf: self.z_buffer.entries@,
        }
    }

    pub fn new() -> (r: ANSIRenderer)
        ensures
            r.wf(),
            r.helper.width == 120 && r.helper.height == 50,
            r.helper.x == 0 && r.helper.y == 0,
            r.helper.stream@ == Seq::<char>::empty(),
            r.helper.aux_map() == Map::<(int, int), Seq<char>>::empty(),
            forall|i: int|
                0 <= i < r.helper.screen.pixels@.len() ==> #[trigger] r.helper.screen.pixels@[i]
                    == '\0',
            r.currently_set_pixels@.len() == 0,
            r.previously_set_pixels@.len() == 0,
            r.z_buffer.entries@.len() == 0,
    {
        ANSIRenderer {
            helper: ANSIHelper::new(),
            currently_set_pixels: Vec::new(),
            previously_set_pixels: Vec::new(),
            z_buffer: OcclusionRecord::new(),
        }
    }

    /// Read access to the writer (for inspecting its buffers).
    pub fn helper_ref(&self) -> (r: &ANSIHelper)
        ensures
            r == &self.helper,
    {
        &self.helper
    }

    /// Hands out the pending terminal output and empties the stream.
    pub fn take_output(&mut self) -> (r: Vec<char>)
        ensures
            r@ == old(self).helper.stream@,
            *final(self) == (ANSIRenderer { helper: final(self).helper, ..*old(self) }),
            final(self).helper == (ANSIHelper {
                stream: final(self).helper.stream,
                ..old(self).helper
            }),
            final(self).helper.stream@ == Seq::<char>::empty(),
    {
        self.helper.take_output()
    }

    /// One glyph write through the occlusion test: rejected writes are
    /// a silent no-op; a target cell that does not fit the terminal's
    /// dimensions is an error, never a silent clamp; otherwise the
    /// optional style is queued at the cell, the text is drawn there,
    /// and the cell and depth recorded.
    pub fn draw_at(&mut self, x: u32, y: u32, s: &str, z: Fx, style: Option<ANSIStyle>) -> (r:
        Result<(), &'static str>)
        requires
            old(self).wf(),
            x < old(self).helper.width && y < old(self).helper.height ==> wrapped(
                x + s@.len(),
                y as int,
                old(self).helper.width as int,
            ).1 <= u32::MAX,
        ensures
            final(self).wf(),
            final(self).helper.width == old(self).helper.width,
            final(self).helper.height == old(self).helper.height,
            final(self).helper.stream@ == old(self).helper.stream@,
            final(self).previously_set_pixels == old(self).previously_set_pixels,
            final(self).state() == ansi_draw(
                old(self).state(),
                x,
                y,
                s@,
                style,
                z.raw,
                old(self).helper.width as int,
                old(self).helper.height as int,
            ).0,
            r is Ok <==> ansi_draw(
                old(self).state(),
                x,
                y,
                s@,
                style,
                z.raw,
                old(self).helper.width as int,
                old(self).helper.height as int,
            ).1,
    {
        if self.z_buffer.blocked(x, y, z) {
            return Ok(());
        }
        if x >= self.helper.width || y >= self.helper.height {
            return Err("Index out of bounds.");
        }
        self.helper.go_to(x, y);
        if let Option::Some(st) = style {
            self.helper.set_style(st);
        }
        proof {
            crate::pixel::lemma_row_major_in_range(
                x as int,
                y as int,
                self.helper.width as int,
                self.helper.height as int,
            );
        }
        let res = self.helper.write(s);
        proof {
            assert(res is Ok);
        }
        if res.is_err() {
            return Err("Index out of bounds.");
        }
        self.currently_set_pixels.push((x, y));
        self.z_buffer.insert(x, y, z);
        Ok(())
    }

    /// Queues a style change at the current cursor cell.
    pub fn set_style(&mut self, style: ANSIStyle)
        ensures
            *final(self) == (ANSIRenderer { helper: final(self).helper, ..*old(self) }),
            final(self).helper == (ANSIHelper {
                aux: final(self).helper.aux,
                ..old(self).helper
            }),
            final(self).helper.aux_map() == old(self).helper.aux_map().insert(
                (old(self).helper.x as int, old(self).helper.y as int),
                aux_text(
                    old(self).helper.aux_map(),
                    old(self).helper.x as int,
                    old(self).helper.y as int,
                ) + style_escape(style),
            ),
    {
        self.helper.set_style(style);
    }

    /// Blanks one cell: used by the diffing pass for cells drawn last
    /// frame but not this frame.  A cell beyond the raster target is
    /// ignored.
    pub fn clear_at(&mut self, x: u32, y: u32)
        requires
            old(self).wf(),
            wrapped(x + 1, y as int, old(self).helper.width as int).1 <= u32::MAX,
        ensures
            final(self).wf(),
            final(self).helper.width == old(self).helper.width,
            final(self).helper.height == old(self).helper.height,
            final(self).helper.stream@ == old(self).helper.stream@,
            final(self).helper.aux_map() == old(self).helper.aux_map(),
            final(self).currently_set_pixels == old(self).currently_set_pixels,
            final(self).previously_set_pixels == old(self).previously_set_pixels,
            final(self).z_buffer.entries@ == old(self).z_buffer.entries@,
            final(self).helper.screen.pixels@ == write_run(
                old(self).helper.screen.pixels@,
                (y as int) * (old(self).helper.width as int) + x,
                seq![' '],
            ),
    {
        self.helper.go_to(x, y);
        proof {
            reveal_strlit(" ");
        }
        let res = self.helper.write(" ");
        proof {
            if res is Ok {
                assert(" "@ =~= seq![' ']);
            } else {
                assert(final(self).helper.screen.pixels@ =~= write_run(
                    old(self).helper.screen.pixels@,
                    (y as int) * (old(self).helper.width as int) + x,
                    seq![' '],
                ));
            }
        }
    }
}

/// A fresh copy of a cell list.
fn copy_pairs(src: &Vec<(u32, u32)>) -> (r: Vec<(u32, u32)>)
    ensures
        r@ == src@,
{
    let mut r: Vec<(u32, u32)> = Vec::new();
    let n = src.len();
    for i in 0..n
        invariant
            n == src@.len(),
            r@ == src@.take(i as int),
    {
        r.push(src[i]);
        proof {
            assert(r@ =~= src@.take(i + 1));
        }
    }
    proof {
        assert(src@.take(n as int) =~= src@);
    }
    r
}

impl ANSIRenderer {
    /// Ends the frame: blanks every cell drawn last frame but not this
    /// frame (no full-screen clear, to avoid flicker), serializes the
    /// frame, homes the cursor, swaps the drawn-cell sets and resets
    /// the occlusion record.
    pub fn flush(&mut self)
        requires
            old(self).wf(),
        ensures
            final(self).wf(),
            final(self).helper.width == old(self).helper.width,
            final(self).helper.height == old(self).helper.height,
            final(self).helper.stream@ == old(self).helper.stream@ + goto_seq(0, 0)
                + emitted_frame(
                clears_applied(
                    old(self).helper.screen.pixels@,
                    old(self).previously_set_pixels@,
                    old(self).currently_set_pixels@,
                    0,
                    old(self).helper.width as int,
                ),
                old(self).helper.aux_map(),
                old(self).helper.width as int,
            ).out + goto_seq(0, 0),
            final(self).previously_set_pixels@ == old(self).currently_set_pixels@,
            final(self).currently_set_pixels@.len() == 0,
            final(self).z_buffer.entries@.len() == 0,
            final(self).helper.aux_map() == Map::<(int, int), Seq<char>>::empty(),
            forall|i: int|
                0 <= i < final(self).helper.screen.pixels@.len()
                    ==> #[trigger] final(self).helper.screen.pixels@[i] == '\0',
            final(self).helper.x == 0 && final(self).helper.y == 0,
    {
        let ghost cells0 = self.helper.screen.pixels@;
        let ghost prevs = self.previously_set_pixels@;
        let ghost curs = self.currently_set_pixels@;
        let ghost w = self.helper.width as int;
        let n = self.previously_set_pixels.len();
        for i in 0..n
            invariant
                self.wf(),
                n == self.previously_set_pixels@.len(),
                self.previously_set_pixels@ == prevs,
                self.currently_set_pixels@ == curs,
                self.z_buffer.entries@ == old(self).z_buffer.entries@,
                self.helper.width == old(self).helper.width,
                self.helper.height == old(self).helper.height,
                self.helper.stream@ == old(self).helper.stream@,
                self.helper.aux_map() == old(self).helper.aux_map(),
                w == self.helper.width as int,
                clears_applied(self.helper.screen.pixels@, prevs, curs, i as int, w)
                    == clears_applied(cells0, prevs, curs, 0, w),
        {
            let p = self.previously_set_pixels[i];
            let m = self.currently_set_pixels.len();
            let mut found = false;
            for j in 0..m
                invariant
                    m == self.currently_set_pixels@.len(),
                    self.currently_set_pixels@ == curs,
                    found == exists|jj: int| 0 <= jj < j && #[trigger] curs[jj] == p,
            {
                let q = self.currently_set_pixels[j];
                if q.0 == p.0 && q.1 == p.1 {
                    proof {
                        assert(curs[j as int] == p);
                    }
                    found = true;
                }
            }
            if !found {
                self.clear_at(p.0, p.1);
            }
        }
        self.helper.flush();
        self.helper.go_to_immediate(0, 0);
        let swapped = copy_pairs(&self.currently_set_pixels);
        self.previously_set_pixels = swapped;
        self.currently_set_pixels = Vec::new();
        self.z_buffer.clear();
    }

    /// Moves the cursor and emits the positioning escape at once.
    pub fn go_to_immediate(&mut self, x: u32, y: u32)
        ensures
            *final(self) == (ANSIRenderer { helper: final(self).helper, ..*old(self) }),
            final(self).helper == (ANSIHelper {
                x,
                y,
                stream: final(self).helper.stream,
                ..old(self).helper
            }),
            final(self).helper.stream@ == old(self).helper.stream@ + goto_seq(y as int, x as int),
    {
        self.helper.go_to_immediate(x, y);
    }

    /// Moves the cursor without touching the terminal.
    pub fn go_to(&mut self, x: u32, y: u32)
        ensures
            *final(self) == (ANSIRenderer { helper: final(self).helper, ..*old(self) }),
            final(self).helper == (ANSIHelper { x, y, ..old(self).helper }),
    {
        self.helper.go_to(x, y);
    }

    /// Emits the clear-from-cursor escape immediately.
    pub fn clear(&mut self)
        ensures
            *final(self) == (ANSIRenderer { helper: final(self).helper, ..*old(self) }),
            final(self).helper == (ANSIHelper {
                stream: final(self).helper.stream,
                ..old(self).helper
            }),
            final(self).helper.stream@ == old(self).helper.stream@ + seq!['\u{1b}', '[', '0', 'J'],
    {
        self.helper.full_clear();
    }

    /// Line rasterization: draws nothing and changes nothing.
    pub fn rasterize_line(&mut self)
        ensures
            *final(self) == *old(self),
    {
    }

    /// Bitmap drawing: draws nothing and changes nothing.
    pub fn draw_bitmap(&mut self)
        ensures
            *final(self) == *old(self),
    {
    }

    /// Splats a source image at a position and flat depth: every
    /// source pixel with a non-zero red channel writes the fixed
    /// marker glyph at `position + (x, y)` through the occlusion test.
    /// A target cell outside the addressable range fails the pass.
    pub fn draw_image_2d(
        &mut self,
        image: &crate::pixel::Image,
        position: crate::vector::Vector2i,
        z: Fx,
    ) -> (r: Result<(), &'static str>)
        requires
            old(self).wf(),
            image.wf(),
        ensures
            final(self).wf(),
            final(self).helper.width == old(self).helper.width,
            final(self).helper.height == old(self).helper.height,
            final(self).helper.stream@ == old(self).helper.stream@,
            final(self).previously_set_pixels == old(self).previously_set_pixels,
            final(self).state() == ansi_image_splatted(
                old(self).state(),
                *image,
                position,
                z.raw,
                old(self).helper.width as int,
                old(self).helper.height as int,
            ).s,
            r is Ok <==> ansi_image_splatted(
                old(self).state(),
                *image,
                position,
                z.raw,
                old(self).helper.width as int,
                old(self).helper.height as int,
            ).ok,
    {
        let w = self.helper.width;
        let h = self.helper.height;
        let iw = image.width();
        let ih = image.height();
        let ghost out0 = AnsiOutcome { s: old(self).state(), ok: true };
        let ghost img = *image;
        proof {
            reveal_strlit("&");
        }
        for y in 0..ih
            invariant
                self.wf(),
                w == self.helper.width,
                w == old(self).helper.width,
                self.helper.height == old(self).helper.height,
                self.helper.stream@ == old(self).helper.stream@,
                self.previously_set_pixels == old(self).previously_set_pixels,
                img == *image,
                image.wf(),
                iw == image.width,
                ih == image.height,
                h == self.helper.height,
                out0 == (AnsiOutcome { s: old(self).state(), ok: true }),
                ansi_img_rows_upto(out0, img, position, z.raw, y as int, w as int, h as int)
                    == (AnsiOutcome { s: self.state(), ok: true }),
        {
            for x in 0..iw
                invariant
                    self.wf(),
                    w == self.helper.width,
                    w == old(self).helper.width,
                    self.helper.height == old(self).helper.height,
                    self.helper.stream@ == old(self).helper.stream@,
                    self.previously_set_pixels == old(self).previously_set_pixels,
                    img == *image,
                    image.wf(),
                    iw == image.width,
                    ih == image.height,
                    y < ih,
                    h == self.helper.height,
                    out0 == (AnsiOutcome { s: old(self).state(), ok: true }),
                    ansi_img_row_upto(
                        ansi_img_rows_upto(out0, img, position, z.raw, y as int, w as int, h as int),
                        img,
                        position,
                        z.raw,
                        y as int,
                        x as int,
                        w as int,
                        h as int,
                    ) == (AnsiOutcome { s: self.state(), ok: true }),
            {
                let ghost row0 = ansi_img_rows_upto(
                    out0,
                    img,
                    position,
                    z.raw,
                    y as int,
                    w as int,
                    h as int,
                );
                let ghost pre = ansi_img_row_upto(
                    row0,
                    img,
                    position,
                    z.raw,
                    y as int,
                    x as int,
                    w as int,
                    h as int,
                );
                let p = image.get_pixel_at(x, y);
                if p.r != 0 {
                    proof {
                        reveal_strlit("&");
                    }
                    let tx: i64 = (position.x() as i64) + (x as i64);
                    let ty: i64 = (position.y() as i64) + (y as i64);
                    if tx < 0 || tx > 0xffff_ffffi64 || ty < 0 || ty > 0xffff_ffffi64 {
                        proof {
                            let cur = ansi_img_row_upto(
                                row0,
                                img,
                                position,
                                z.raw,
                                y as int,
                                x + 1,
                                w as int,
                                h as int,
                            );
                            assert(cur == (AnsiOutcome { s: self.state(), ok: false }));
                            lemma_ansi_img_row_abort(
                                row0,
                                img,
                                position,
                                z.raw,
                                y as int,
                                x + 1,
                                iw as int,
                                w as int,
                                h as int,
                            );
                            assert(ansi_img_rows_upto(
                                out0,
                                img,
                                position,
                                z.raw,
                                y + 1,
                                w as int,
                                h as int,
                            ) == cur);
                            lemma_ansi_img_rows_abort(
                                out0,
                                img,
                                position,
                                z.raw,
                                y + 1,
                                ih as int,
                                w as int,
                                h as int,
                            );
                        }
                        return Err("Desired pixel index does not fit into usize.");
                    }
                    let res = self.draw_at(tx as u32, ty as u32, "&", z, Option::None);
                    proof {
                        reveal_strlit("&");
                        assert("&"@ =~= seq!['&']);
                    }
                    if res.is_err() {
                        proof {
                            let cur = ansi_img_row_upto(
                                row0,
                                img,
                                position,
                                z.raw,
                                y as int,
                                x + 1,
                                w as int,
                                h as int,
                            );
                            assert(cur == (AnsiOutcome { s: self.state(), ok: false }));
                            lemma_ansi_img_row_abort(
                                row0,
                                img,
                                position,
                                z.raw,
                                y as int,
                                x + 1,
                                iw as int,
                                w as int,
                                h as int,
                            );
                            assert(ansi_img_rows_upto(
                                out0,
                                img,
                                position,
                                z.raw,
                                y + 1,
                                w as int,
                                h as int,
                            ) == cur);
                            lemma_ansi_img_rows_abort(
                                out0,
                                img,
                                position,
                                z.raw,
                                y + 1,
                                ih as int,
                                w as int,
                                h as int,
                            );
                        }
                        return Err("Desired pixel index does not fit into usize.");
                    }
                }
                proof {
                    assert(ansi_img_row_upto(
                        row0,
                        img,
                        position,
                        z.raw,
                        y as int,
                        x + 1,
                        w as int,
                        h as int,
                    ) == (AnsiOutcome { s: self.state(), ok: true }));
                }
            }
        }
        Ok(())
    }

    /// The terminal splat rasterizer over an explicit vertex list: for
    /// every cell of the terminal, for every vertex, a candidate glyph
    /// from the fixed depth ladder when the cell lies within the
    /// planar threshold, each through the occlusion test.  Never
    /// fails: every candidate cell fits the terminal.
    pub fn rasterize_list(&mut self, verts: &Vec<crate::vector::Vector3>, max_distance: Fx) -> (r:
        Result<(), &'static str>)
        requires
            old(self).wf(),
        ensures
            final(self).wf(),
            final(self).helper.width == old(self).helper.width,
            final(self).helper.height == old(self).helper.height,
            final(self).helper.stream@ == old(self).helper.stream@,
            final(self).previously_set_pixels == old(self).previously_set_pixels,
            r is Ok,
            final(self).state() == ansi_rasterized(
                old(self).state(),
                old(self).helper.width as int,
                old(self).helper.height as int,
                verts@,
                max_distance,
            ),
            forall|cx: u32, cy: u32|
                cx < old(self).helper.width && cy < old(self).helper.height ==> (
                #[trigger] crate::pixel::zbuf_has(final(self).z_buffer.entries@, cx, cy) <==> (
                crate::pixel::zbuf_has(old(self).z_buffer.entries@, cx, cy)
                    || crate::pixel::hit_by(verts@, verts@.len() as int, cx, cy, max_distance))),
    {
        let w = self.helper.width;
        let h = self.helper.height;
        let t = max_distance;
        let nv = verts.len();
        let ghost s0 = self.state();
        let ghost vs = verts@;
        for x in 0..w
            invariant
                self.wf(),
                w == self.helper.width,
                w == old(self).helper.width,
                h == self.helper.height,
                h == old(self).helper.height,
                self.helper.stream@ == old(self).helper.stream@,
                self.previously_set_pixels == old(self).previously_set_pixels,
                nv == vs.len(),
                vs == verts@,
                s0 == old(self).state(),
                self.state() == ansi_rast_cols_upto(s0, x as int, h as int, vs, t, w as int),
                forall|cx: u32, cy: u32|
                    #[trigger] crate::pixel::zbuf_has(self.z_buffer.entries@, cx, cy) <==> (
                    crate::pixel::zbuf_has(s0.zbuf, cx, cy) || (cx < x && cy < h
                        && crate::pixel::hit_by(vs, nv as int, cx, cy, t))),
        {
            for y in 0..h
                invariant
                    self.wf(),
                    w == self.helper.width,
                    w == old(self).helper.width,
                    h == self.helper.height,
                    h == old(self).helper.height,
                    self.helper.stream@ == old(self).helper.stream@,
                    self.previously_set_pixels == old(self).previously_set_pixels,
                    x < w,
                    nv == vs.len(),
                    vs == verts@,
                    s0 == old(self).state(),
                    self.state() == ansi_rast_rows_upto(
                        ansi_rast_cols_upto(s0, x as int, h as int, vs, t, w as int),
                        x,
                        y as int,
                        vs,
                        t,
                        w as int,
                        h as int,
                    ),
                    forall|cx: u32, cy: u32|
                        #[trigger] crate::pixel::zbuf_has(self.z_buffer.entries@, cx, cy) <==> (
                        crate::pixel::zbuf_has(s0.zbuf, cx, cy) || (cx < x && cy < h
                            && crate::pixel::hit_by(vs, nv as int, cx, cy, t)) || (cx == x && cy
                            < y && crate::pixel::hit_by(vs, nv as int, cx, cy, t))),
            {
                let ghost s_cell = self.state();
                for k in 0..nv
                    invariant
                        self.wf(),
                        w == self.helper.width,
                        w == old(self).helper.width,
                        h == self.helper.height,
                        h == old(self).helper.height,
                        self.helper.stream@ == old(self).helper.stream@,
                        self.previously_set_pixels == old(self).previously_set_pixels,
                        x < w,
                        y < h,
                        nv == vs.len(),
                        vs == verts@,
                        s0 == old(self).state(),
                        s_cell == ansi_rast_rows_upto(
                            ansi_rast_cols_upto(s0, x as int, h as int, vs, t, w as int),
                            x,
                            y as int,
                            vs,
                            t,
                            w as int,
                            h as int,
                        ),
                        self.state() == ansi_rast_verts_upto(
                            s_cell,
                            x,
                            y,
                            vs,
                            k as int,
                            t,
                            w as int,
                            h as int,
                        ),
                        forall|cx: u32, cy: u32|
                            #[trigger] crate::pixel::zbuf_has(self.z_buffer.entries@, cx, cy)
                                <==> (crate::pixel::zbuf_has(s0.zbuf, cx, cy) || (cx < x && cy < h
                                && crate::pixel::hit_by(vs, nv as int, cx, cy, t)) || (cx == x
                                && cy < y && crate::pixel::hit_by(vs, nv as int, cx, cy, t)) || (
                            cx == x && cy == y && crate::pixel::hit_by(vs, k as int, cx, cy, t))),
                {
                    let vert = verts[k];
                    let ghost zpre = self.z_buffer.entries@;
                    if crate::pixel::within_threshold(x, y, &vert, t) {
                        let c = glyph_for(vert.z);
                        let res = self.draw_at(x, y, c, vert.z, Option::None);
                        proof {
                            crate::pixel::lemma_row_major_in_range(
                                x as int,
                                y as int,
                                w as int,
                                h as int,
                            );
                            assert(res is Ok);
                            assert(self.state() == ansi_rast_verts_upto(
                                s_cell,
                                x,
                                y,
                                vs,
                                k + 1,
                                t,
                                w as int,
                                h as int,
                            ));
                            if occluded_spec(zpre, x, y, vert.z.raw as int) {
                                crate::pixel::lemma_occluded_has(zpre, x, y, vert.z.raw as int);
                            } else {
                                assert(self.z_buffer.entries@ == zpre.push(
                                    DepthEntry { x, y, z: Fx { raw: vert.z.raw } },
                                ));
                            }
                            assert forall|cx: u32, cy: u32|
                                #[trigger] crate::pixel::zbuf_has(self.z_buffer.entries@, cx, cy)
                                    <==> (crate::pixel::zbuf_has(s0.zbuf, cx, cy) || (cx < x && cy
                                    < h && crate::pixel::hit_by(vs, nv as int, cx, cy, t)) || (cx
                                    == x && cy < y && crate::pixel::hit_by(vs, nv as int, cx, cy, t))
                                    || (cx == x && cy == y && crate::pixel::hit_by(
                                    vs,
                                    k + 1,
                                    cx,
                                    cy,
                                    t,
                                ))) by {
                                if !occluded_spec(zpre, x, y, vert.z.raw as int) {
                                    crate::pixel::lemma_zbuf_has_push(
                                        zpre,
                                        DepthEntry { x, y, z: Fx { raw: vert.z.raw } },
                                        cx,
                                        cy,
                                    );
                                }
                                if cx == x && cy == y {
                                    assert(crate::pixel::within_spec(x, y, vs[k as int], t));
                                    assert(crate::pixel::hit_by(vs, k + 1, cx, cy, t));
                                }
                            }
                        }
                        if res.is_err() {
                            return Err("Desired pixel index does not fit into usize.");
                        }
                    } else {
                        proof {
                            assert(self.state() == ansi_rast_verts_upto(
                                s_cell,
                                x,
                                y,
                                vs,
                                k + 1,
                                t,
                                w as int,
                                h as int,
                            ));
                            assert forall|cx: u32, cy: u32|
                                #[trigger] crate::pixel::zbuf_has(self.z_buffer.entries@, cx, cy)
                                    <==> (crate::pixel::zbuf_has(s0.zbuf, cx, cy) || (cx < x && cy
                                    < h && crate::pixel::hit_by(vs, nv as int, cx, cy, t)) || (cx
                                    == x && cy < y && crate::pixel::hit_by(vs, nv as int, cx, cy, t))
                                    || (cx == x && cy == y && crate::pixel::hit_by(
                                    vs,
                                    k + 1,
                                    cx,
                                    cy,
                                    t,
                                ))) by {
                                if cx == x && cy == y {
                                    assert(crate::pixel::hit_by(vs, k + 1, x, y, t)
                                        == crate::pixel::hit_by(vs, k as int, x, y, t)) by {
                                        if crate::pixel::hit_by(vs, k + 1, x, y, t)
                                            && !crate::pixel::hit_by(vs, k as int, x, y, t) {
                                            let kk = choose|kk: int|
                                                0 <= kk < k + 1 && crate::pixel::within_spec(
                                                    x,
                                                    y,
                                                    #[trigger] vs[kk],
                                                    t,
                                                );
                                            assert(kk == k);
                                            assert(false);
                                        }
                                    }
                                }
                            }
                        }
                    }
                }
            }
        }
        Ok(())
    }

    /// The terminal splat rasterizer over a mesh: rasterizes the
    /// mesh's transformed vertices.
    pub fn rasterize_vertices(&mut self, mesh: &crate::mesh::Mesh, max_distance: Fx) -> (r: Result<
        (),
        &'static str,
    >)
        requires
            old(self).wf(),
            forall|k: int|
                0 <= k < mesh.verts@.len() ==> #[trigger] crate::mesh::transform_in_range(
                    mesh.verts@[k],
                    mesh.scale_matrix,
                    mesh.rotation_matrix,
                    mesh.translation_matrix,
                ),
        ensures
            final(self).wf(),
            final(self).helper.width == old(self).helper.width,
            final(self).helper.height == old(self).helper.height,
            final(self).helper.stream@ == old(self).helper.stream@,
            final(self).previously_set_pixels == old(self).previously_set_pixels,
            r is Ok,
            final(self).state() == ansi_rasterized(
                old(self).state(),
                old(self).helper.width as int,
                old(self).helper.height as int,
                crate::mesh::transformed_seq(*mesh),
                max_distance,
            ),
            forall|cx: u32, cy: u32|
                cx < old(self).helper.width && cy < old(self).helper.height ==> (
                #[trigger] crate::pixel::zbuf_has(final(self).z_buffer.entries@, cx, cy) <==> (
                crate::pixel::zbuf_has(old(self).z_buffer.entries@, cx, cy)
                    || crate::pixel::hit_by(
                    crate::mesh::transformed_seq(*mesh),
                    crate::mesh::transformed_seq(*mesh).len() as int,
                    cx,
                    cy,
                    max_distance,
                ))),
    {
        let verts = mesh.get_transformed_verts();
        proof {
            assert forall|k: int| 0 <= k < verts@.len() implies verts@[k]
                == crate::mesh::transformed_seq(*mesh)[k] by {
                assert(crate::mesh::vert_matches(
                    verts@[k],
                    mesh.verts@[k],
                    mesh.scale_matrix,
                    mesh.rotation_matrix,
                    mesh.translation_matrix,
                ));
            }
            assert(verts@ =~= crate::mesh::transformed_seq(*mesh));
        }
        self.rasterize_list(&verts, max_distance)
    }
}

/// The characters of a string slice, in order.
pub fn str_chars(s: &str) -> (r: Vec<char>)
    ensures
        r@ == s@,
{
    let n = s.unicode_len();
    let mut r: Vec<char> = Vec::new();
    for i in 0..n
        invariant
            n == s@.len(),
            r@ == s@.take(i as int),
    {
        r.push(s.get_char(i));
        proof {
            assert(r@ =~= s@.take(i + 1));
        }
    }
    proof {
        assert(s@.take(n as int) =~= s@);
    }
    r
}

} // verus!
