//! Display styles of entries, and the numbering of colors and color pairs
//! that a terminal needs before it can draw them.
use vstd::prelude::*;
use crate::entry::EntryType;
use crate::text::{has_suffix, ends_with};

verus! {

pub enum Attr {
    Bold,
    Underlined,
}

pub enum Mode {
    On,
    Off,
}

#[derive(PartialEq, Eq, Structural, Clone, Copy, Debug, Hash)]
pub enum Color {
    Black,
    Red,
    Green,
    LightBlue,
    Yellow,
    Blue,
    Purple,
    Cyan,
    White,
    Grey,
    Default,
}

#[derive(PartialEq, Eq, Structural, Clone, Copy, Debug, Hash)]
pub struct Paint {
    pub fg: Color,
    pub bg: Color,
    pub bold: bool,
    pub underlined: bool,
}

#[derive(Clone, Copy)]
pub struct PaintSettings {
    pub dir_paint: Paint,
    pub symlink_paint: Paint,
    pub file_paint: Paint,
    pub unknown_paint: Paint,
    pub executable_paint: Paint,
}

impl Paint {
    /// A plain paint with the given colors.
    pub fn with_fg_bg(fg: Color, bg: Color) -> (r: Paint)
        ensures
            r == (Paint { fg, bg, bold: false, underlined: false }),
    {
        Paint { fg, bg, bold: false, underlined: false }
    }

    /// The same paint in bold.
    pub fn bold(self) -> (r: Paint)
        ensures
            r == (Paint { bold: true, ..self }),
    {
        let mut p = self;
        p.bold = true;
        p
    }
}

/// A selected entry is drawn with its colors swapped, in bold; a
/// transparent background becomes black first.
pub open spec fn selected_paint(paint: Paint) -> Paint {
    Paint {
        fg: if paint.bg == Color::Default { Color::Black } else { paint.bg },
        bg: paint.fg,
        bold: true,
        underlined: paint.underlined,
    }
}

/// The paint to draw with, swapped when `convert` is set.
pub fn maybe_selected_paint_from(paint: Paint, convert: bool) -> (r: Paint)
    ensures
        r == if convert { selected_paint(paint) } else { paint },
{
    if convert {
        let mut bg = paint.bg;
        if bg == Color::Default {
            bg = Color::Black;
        }
        Paint { fg: bg, bg: paint.fg, bold: true, underlined: paint.underlined }
    } else {
        paint
    }
}

pub open spec fn plain(fg: Color) -> Paint {
    Paint { fg, bg: Color::Default, bold: false, underlined: false }
}

pub open spec fn strong(fg: Color) -> Paint {
    Paint { fg, bg: Color::Default, bold: true, underlined: false }
}

/// The paint that a file's extension calls for, if any: sources in red,
/// documents and audio in yellow, images and video in purple.
pub open spec fn paint_for_name(name: Seq<char>) -> Option<Paint> {
    if has_suffix(name, seq!['.', 'c', 'p', 'p']) || has_suffix(name, seq!['.', 'j', 'a', 'v', 'a'])
        || has_suffix(name, seq!['.', 'r', 's']) || has_suffix(name, seq!['.', 'h']) {
        Some(plain(Color::Red))
    } else if has_suffix(name, seq!['.', 'p', 'd', 'f']) || has_suffix(name, seq!['.', 'd', 'j', 'v', 'u']) {
        Some(strong(Color::Yellow))
    } else if has_suffix(name, seq!['.', 'm', 'p', '3']) || has_suffix(name, seq!['.', 'w', 'e', 'b', 'm']) {
        Some(plain(Color::Yellow))
    } else if has_suffix(name, seq!['.', 'p', 'n', 'g']) || has_suffix(name, seq!['.', 'g', 'i', 'f'])
        || has_suffix(name, seq!['.', 'j', 'p', 'g']) || has_suffix(name, seq!['.', 'j', 'p', 'e', 'g']) {
        Some(plain(Color::Purple))
    } else if has_suffix(name, seq!['.', 'm', 'k', 'v']) || has_suffix(name, seq!['.', 'a', 'v', 'i'])
        || has_suffix(name, seq!['.', 'm', 'p', '4']) {
        Some(strong(Color::Purple))
    } else {
        None
    }
}

/// The paint for a file by its extension, if any.
pub fn maybe_paint_for_name(name: &str) -> (r: Option<Paint>)
    ensures
        r == paint_for_name(name@),
{
    proof {
        reveal_strlit(".cpp");
        assert(".cpp"@ =~= seq!['.', 'c', 'p', 'p']);
        reveal_strlit(".java");
        assert(".java"@ =~= seq!['.', 'j', 'a', 'v', 'a']);
        reveal_strlit(".rs");
        assert(".rs"@ =~= seq!['.', 'r', 's']);
        reveal_strlit(".h");
        assert(".h"@ =~= seq!['.', 'h']);
        reveal_strlit(".pdf");
        assert(".pdf"@ =~= seq!['.', 'p', 'd', 'f']);
        reveal_strlit(".djvu");
        assert(".djvu"@ =~= seq!['.', 'd', 'j', 'v', 'u']);
        reveal_strlit(".mp3");
        assert(".mp3"@ =~= seq!['.', 'm', 'p', '3']);
        reveal_strlit(".webm");
        assert(".webm"@ =~= seq!['.', 'w', 'e', 'b', 'm']);
        reveal_strlit(".png");
        assert(".png"@ =~= seq!['.', 'p', 'n', 'g']);
        reveal_strlit(".gif");
        assert(".gif"@ =~= seq!['.', 'g', 'i', 'f']);
        reveal_strlit(".jpg");
        assert(".jpg"@ =~= seq!['.', 'j', 'p', 'g']);
        reveal_strlit(".jpeg");
        assert(".jpeg"@ =~= seq!['.', 'j', 'p', 'e', 'g']);
        reveal_strlit(".mkv");
        assert(".mkv"@ =~= seq!['.', 'm', 'k', 'v']);
        reveal_strlit(".avi");
        assert(".avi"@ =~= seq!['.', 'a', 'v', 'i']);
        reveal_strlit(".mp4");
        assert(".mp4"@ =~= seq!['.', 'm', 'p', '4']);
    }
    if ends_with(name, ".cpp") || ends_with(name, ".java") || ends_with(name, ".rs") || ends_with(name, ".h") {
        Some(Paint::with_fg_bg(Color::Red, Color::Default))
    } else if ends_with(name, ".pdf") || ends_with(name, ".djvu") {
        Some(Paint::with_fg_bg(Color::Yellow, Color::Default).bold())
    } else if ends_with(name, ".mp3") || ends_with(name, ".webm") {
        Some(Paint::with_fg_bg(Color::Yellow, Color::Default))
    } else if ends_with(name, ".png") || ends_with(name, ".gif") || ends_with(name, ".jpg") || ends_with(name, ".jpeg") {
        Some(Paint::with_fg_bg(Color::Purple, Color::Default))
    } else if ends_with(name, ".mkv") || ends_with(name, ".avi") || ends_with(name, ".mp4") {
        Some(Paint::with_fg_bg(Color::Purple, Color::Default).bold())
    } else {
        None
    }
}

pub open spec fn paint_of(entrytype: EntryType, name: Seq<char>, executable: bool, settings: PaintSettings) -> Paint {
    match entrytype {
        EntryType::Directory => settings.dir_paint,
        EntryType::Symlink => settings.symlink_paint,
        EntryType::Unknown => settings.unknown_paint,
        EntryType::Regular => match paint_for_name(name) {
            Some(p) => p,
            None => if executable { settings.executable_paint } else { settings.file_paint },
        },
    }
}

/// The paint of an entry: by its kind, and for a regular file by its
/// extension, else by whether anyone may execute it.
pub fn paint_for(entrytype: &EntryType, name: &str, executable: bool, paint_settings: &PaintSettings) -> (r: Paint)
    ensures
        r == paint_of(*entrytype, name@, executable, *paint_settings),
{
    match entrytype {
        EntryType::Directory => paint_settings.dir_paint,
        EntryType::Symlink => paint_settings.symlink_paint,
        EntryType::Unknown => paint_settings.unknown_paint,
        EntryType::Regular => match maybe_paint_for_name(name) {
            Some(p) => p,
            None => if executable { paint_settings.executable_paint } else { paint_settings.file_paint },
        },
    }
}

pub type ColorComponent = i16;
pub type ColorId = i16;
pub type PaintId = i16;

pub open spec fn rgb_of(color: Color) -> (i16, i16, i16) {
    match color {
        Color::Black => (0, 0, 0),
        Color::Red => (1000, 0, 0),
        Color::Green => (0, 1000, 0),
        Color::LightBlue => (433, 735, 966),
        Color::Yellow => (1000, 1000, 0),
        Color::Blue => (0, 0, 1000),
        Color::Purple => (850, 0, 750),
        Color::Cyan => (0, 1000, 1000),
        Color::White => (1000, 1000, 1000),
        Color::Grey => (400, 400, 400),
        Color::Default => (-1i16, -1i16, -1i16),
    }
}

/// The red, green and blue parts of a color, each in `0..=1000`; the
/// transparent default has none.
pub fn get_rgb(color: Color) -> (r: (ColorComponent, ColorComponent, ColorComponent))
    requires
        color != Color::Default,
    ensures
        r == rgb_of(color),
{
    match color {
        Color::Black => (0, 0, 0),
        Color::Red => (1000, 0, 0),
        Color::Green => (0, 1000, 0),
        Color::LightBlue => (433, 735, 966),
        Color::Yellow => (1000, 1000, 0),
        Color::Blue => (0, 0, 1000),
        Color::Purple => (850, 0, 750),
        Color::Cyan => (0, 1000, 1000),
        Color::White => (1000, 1000, 1000),
        Color::Grey => (400, 400, 400),
        Color::Default => (-1, -1, -1),
    }
}

/// The numbers a terminal knows colors and color pairs by. Colors below
/// 8 are the terminal's own, so new ones start there; pairs start at 1.
pub struct ColorSystem {
    pub next_colorid_to_use: ColorId,
    pub next_paintid_to_use: PaintId,
    pub colors: Vec<(Color, ColorId)>,
    pub paints: Vec<(Paint, PaintId)>,
}

/// A color the terminal must be told of before a pair uses it.
pub struct ColorInit {
    pub id: ColorId,
    pub rgb: (ColorComponent, ColorComponent, ColorComponent),
}

/// A color pair the terminal must be told of before it is drawn with.
pub struct PairInit {
    pub id: PaintId,
    pub fg: ColorId,
    pub bg: ColorId,
    pub colors: Vec<ColorInit>,
}

pub open spec fn color_id_in(colors: Seq<(Color, ColorId)>, c: Color) -> Option<ColorId>
    decreases colors.len(),
{
    if colors.len() == 0 {
        None
    } else if colors.last().0 == c {
        Some(colors.last().1)
    } else {
        color_id_in(colors.drop_last(), c)
    }
}

pub open spec fn paint_id_in(paints: Seq<(Paint, PaintId)>, p: Paint) -> Option<PaintId>
    decreases paints.len(),
{
    if paints.len() == 0 {
        None
    } else if paints.last().0 == p {
        Some(paints.last().1)
    } else {
        paint_id_in(paints.drop_last(), p)
    }
}

fn find_color(colors: &Vec<(Color, ColorId)>, c: Color) -> (r: Option<ColorId>)
    ensures
        r == color_id_in(colors@, c),
{
    let mut k: usize = colors.len();
    assert(colors@.subrange(0, k as int) =~= colors@);
    while k > 0
        invariant
            k <= colors@.len(),
            color_id_in(colors@, c) == color_id_in(colors@.subrange(0, k as int), c),
        decreases k,
    {
        assert(colors@.subrange(0, k as int).drop_last() =~= colors@.subrange(0, k - 1));
        if colors[k - 1].0 == c {
            return Some(colors[k - 1].1);
        }
        k = k - 1;
    }
    None
}

fn find_paint(paints: &Vec<(Paint, PaintId)>, p: Paint) -> (r: Option<PaintId>)
    ensures
        r == paint_id_in(paints@, p),
{
    let mut k: usize = paints.len();
    assert(paints@.subrange(0, k as int) =~= paints@);
    while k > 0
        invariant
            k <= paints@.len(),
            paint_id_in(paints@, p) == paint_id_in(paints@.subrange(0, k as int), p),
        decreases k,
    {
        assert(paints@.subrange(0, k as int).drop_last() =~= paints@.subrange(0, k - 1));
        if paints[k - 1].0 == p {
            return Some(paints[k - 1].1);
        }
        k = k - 1;
    }
    None
}

impl ColorSystem {
    pub fn new() -> (r: ColorSystem)
        ensures
            r.next_colorid_to_use == 8,
            r.next_paintid_to_use == 1,
            r.colors@.len() == 0,
            r.paints@.len() == 0,
    {
        ColorSystem { next_colorid_to_use: 8, next_paintid_to_use: 1, colors: Vec::new(), paints: Vec::new() }
    }

    /// The number of a color: `-1` for the terminal's default, the number
    /// given before, or the next free one, which must then be set up.
    pub fn get_maybe_add_color(&mut self, color: Color, inits: &mut Vec<ColorInit>) -> (r: ColorId)
        requires
            old(self).next_colorid_to_use < 32767,
        ensures
            color == Color::Default ==> r == -1 && *final(self) == *old(self) && final(inits)@ == old(inits)@,
            color != Color::Default ==> match color_id_in(old(self).colors@, color) {
                Some(id) => r == id && *final(self) == *old(self) && final(inits)@ == old(inits)@,
                None => {
                    &&& r == old(self).next_colorid_to_use
                    &&& final(self).next_colorid_to_use == old(self).next_colorid_to_use + 1
                    &&& final(self).colors@ == old(self).colors@.push((color, r))
                    &&& final(self).paints == old(self).paints
                    &&& final(self).next_paintid_to_use == old(self).next_paintid_to_use
                    &&& final(inits)@.len() == old(inits)@.len() + 1
                    &&& final(inits)@.last().id == r
                    &&& final(inits)@.last().rgb == rgb_of(color)
                },
            },
    {
        if color == Color::Default {
            return -1;
        }
        match find_color(&self.colors, color) {
            Some(id) => id,
            None => {
                let id = self.next_colorid_to_use;
                self.colors.push((color, id));
                inits.push(ColorInit { id, rgb: get_rgb(color) });
                self.next_colorid_to_use = id + 1;
                id
            },
        }
    }

    /// The number of the pair for a paint: the one given before, or the
    /// next free one, which must then be set up with its colors.
    pub fn get_maybe_add_paint(&mut self, paint: Paint) -> (r: (PaintId, Option<PairInit>))
        requires
            old(self).next_colorid_to_use < 32765,
            old(self).next_paintid_to_use < 32767,
        ensures
            match paint_id_in(old(self).paints@, paint) {
                Some(id) => r.0 == id && r.1 is None && *final(self) == *old(self),
                None => {
                    &&& r.0 == old(self).next_paintid_to_use
                    &&& final(self).next_paintid_to_use == old(self).next_paintid_to_use + 1
                    &&& final(self).paints@ == old(self).paints@.push((paint, r.0))
                    &&& r.1 is Some
                    &&& r.1->0.id == r.0
                },
            },
    {
        match find_paint(&self.paints, paint) {
            Some(id) => (id, None),
            None => {
                let id = self.next_paintid_to_use;
                self.paints.push((paint, id));
                let mut colors: Vec<ColorInit> = Vec::new();
                let fg = self.get_maybe_add_color(paint.fg, &mut colors);
                let bg = self.get_maybe_add_color(paint.bg, &mut colors);
                self.next_paintid_to_use = id + 1;
                (id, Some(PairInit { id, fg, bg, colors }))
            },
        }
    }
}

} // verus!
