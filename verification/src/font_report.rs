//! What listing fonts prints.

use crate::selected::{ColumnSpan, LineCell, PhysicalLine};
use crate::text::{
    decimal, escape_unicode, escaped, left_aligned, push_decimal, push_left_aligned,
    push_right_aligned, right_aligned,
};
use vstd::prelude::*;

verus! {

/// A run of text that was shaped at once.
pub struct Cluster {
    /// Whether the text runs from left to right.
    pub left_to_right: bool,
    /// For every byte of the text, the column of the cell that it is in.
    pub cell_of_byte: Vec<usize>,
    /// For every byte of the text, how many bytes its character takes.
    pub byte_lens: Vec<usize>,
}

impl Cluster {
    /// The byte at which a glyph that starts at `byte` ends: where the next glyph starts, or
    /// at the end of the text; in text from right to left, at the end of its character.
    pub open spec fn last_byte(self, byte: int) -> int {
        if self.left_to_right {
            self.cell_of_byte@.len() - 1
        } else {
            byte + self.byte_lens@[byte] - 1
        }
    }

    /// Whether a glyph can start at `byte` and, in text from left to right, be followed by
    /// one that starts at `next`.
    pub open spec fn has_glyph(self, byte: int, next: Option<usize>) -> bool {
        &&& 0 <= byte < self.cell_of_byte@.len()
        &&& self.left_to_right && next is Some ==> next->0 < self.cell_of_byte@.len()
        &&& !self.left_to_right ==> {
            &&& byte < self.byte_lens@.len()
            &&& 1 <= self.byte_lens@[byte]
        }
        &&& !(self.left_to_right && next is Some) ==> {
            &&& 0 <= self.last_byte(byte) < self.cell_of_byte@.len()
            &&& self.cell_of_byte@[self.last_byte(byte)] < usize::MAX
        }
    }

    /// The columns that a glyph stands for.
    pub open spec fn columns(self, byte: int, next: Option<usize>) -> ColumnSpan {
        ColumnSpan {
            start: self.cell_of_byte@[byte],
            end: if self.left_to_right && next is Some {
                self.cell_of_byte@[next->0 as int]
            } else {
                (self.cell_of_byte@[self.last_byte(byte)] + 1) as usize
            },
        }
    }

    /// The columns that the glyph at `byte` stands for; `next` is where the next glyph in
    /// reading order starts, if there is one.
    pub fn glyph_columns(&self, byte: usize, next: Option<usize>) -> (r: ColumnSpan)
        requires
            self.has_glyph(byte as int, next),
        ensures
            r == self.columns(byte as int, next),
    {
        let count: usize = self.cell_of_byte.len();
        let start: usize = self.cell_of_byte[byte];
        let end: usize = if self.left_to_right {
            match next {
                Some(next) => self.cell_of_byte[next],
                None => self.cell_of_byte[count - 1] + 1,
            }
        } else {
            let len: usize = self.byte_lens[byte];
            self.cell_of_byte[byte + (len - 1)] + 1
        };
        ColumnSpan { start, end }
    }

    /// Whether glyphs can start at the bytes `starts`, in reading order.
    pub open spec fn has_glyphs(self, starts: Seq<usize>) -> bool {
        forall|i: int|
            0 <= i < starts.len() ==> self.has_glyph(
                #[trigger] starts[i] as int,
                next_start(starts, i),
            )
    }

    /// The columns that each of the glyphs stands for that start at the bytes `starts`, in
    /// reading order.
    pub fn all_glyph_columns(&self, starts: &Vec<usize>) -> (r: Vec<ColumnSpan>)
        requires
            self.has_glyphs(starts@),
        ensures
            r@.len() == starts@.len(),
            forall|i: int|
                0 <= i < starts@.len() ==> #[trigger] r@[i] == self.columns(
                    starts@[i] as int,
                    next_start(starts@, i),
                ),
    {
        let count: usize = starts.len();
        let mut out: Vec<ColumnSpan> = Vec::new();
        let mut i: usize = 0;
        while i < count
            invariant
                i <= count,
                count == starts@.len(),
                self.has_glyphs(starts@),
                out@.len() == i,
                forall|j: int|
                    0 <= j < i ==> #[trigger] out@[j] == self.columns(
                        starts@[j] as int,
                        next_start(starts@, j),
                    ),
            decreases count - i,
        {
            let next = if i + 1 < count {
                Some(starts[i + 1])
            } else {
                None
            };
            assert(next == next_start(starts@, i as int));
            let span = self.glyph_columns(starts[i], next);
            out.push(span);
            i = i + 1;
        }
        out
    }
}

/// Where the glyph after glyph `i` starts, if there is one.
pub open spec fn next_start(starts: Seq<usize>, i: int) -> Option<usize> {
    if i + 1 < starts.len() {
        Some(starts[i + 1])
    } else {
        None
    }
}

/// In text from left to right the glyphs share out the cells without gap or overlap: each
/// one's columns end where the next one's begin, and the last one's end behind the last
/// cell.
pub proof fn law_glyphs_share_out_the_cells(cluster: Cluster, starts: Seq<usize>, i: int)
    requires
        cluster.left_to_right,
        cluster.has_glyphs(starts),
        0 <= i < starts.len(),
    ensures
        ({
            let here = cluster.columns(starts[i] as int, next_start(starts, i));
            if i + 1 < starts.len() {
                here.end == cluster.columns(
                    starts[i + 1] as int,
                    next_start(starts, i + 1),
                ).start
            } else {
                here.end == cluster.cell_of_byte@.last() + 1
            }
        }),
{
    let _ = starts[i];
}

/// Whether the cell that starts in column `index` is there and shows `text`.
pub open spec fn shows(cells: Seq<LineCell>, index: int, text: Seq<char>) -> bool {
    exists|i: int|
        0 <= i < cells.len() && (#[trigger] cells[i]).index == index && cells[i].text@ == text && (
        forall|j: int| 0 <= j < i ==> (#[trigger] cells[j]).index != index)
}

/// Whether the cell after column `column` is a space.
pub fn followed_by_space(line: &PhysicalLine, column: usize) -> (r: bool)
    requires
        column < usize::MAX,
    ensures
        r == shows(line.cells@, column + 1, " "@),
{
    let space = " ".to_string();
    let mut i: usize = 0;
    while i < line.cells.len()
        invariant
            column < usize::MAX,
            space@ == " "@,
            i <= line.cells.len(),
            forall|j: int| 0 <= j < i ==> (#[trigger] line.cells@[j]).index != column + 1,
        decreases line.cells.len() - i,
    {
        if line.cells[i].index == column + 1 {
            return line.cells[i].text == space;
        }
        i = i + 1;
    }
    false
}

/// A shaped glyph, as it is reported.
pub struct GlyphInfo {
    /// The byte of the cluster's text that it starts at.
    pub cluster: u32,
    /// The text that it stands for.
    pub text: String,
    /// Its advance, as a number in text form.
    pub x_advance: String,
    pub num_cells: u8,
    /// Its name in the font, if it has one.
    pub glyph_name: Option<String>,
    pub glyph_pos: u32,
    /// The font, as configuration text.
    pub lua_name: String,
    /// Where the font was found.
    pub diagnostic: String,
}

/// The columns with which the report of every glyph begins.
pub open spec fn glyph_head(info: GlyphInfo) -> Seq<char> {
    right_aligned(decimal(info.cluster as nat), 2) + " "@ + left_aligned(info.text@, 4) + " "@
        + left_aligned(escaped(info.text@), 12) + " "@
}

/// The report of a glyph that the terminal draws itself, as the block `block`.
pub open spec fn block_report(info: GlyphInfo, block: Seq<char>) -> Seq<char> {
    glyph_head(info) + "drawn by wezterm because custom_block_glyphs=true: "@ + block
}

/// The glyph's name and a comma, if it has a name.
pub open spec fn name_prefix(name: Option<String>) -> Seq<char> {
    match name {
        Some(name) => name@ + ","@,
        None => Seq::empty(),
    }
}

/// The report of a glyph that comes from a font.
pub open spec fn font_glyph_report(info: GlyphInfo) -> Seq<char> {
    glyph_head(info) + "x_adv="@ + left_aligned(info.x_advance@, 2) + " cells="@ + left_aligned(
        decimal(info.num_cells as nat),
        2,
    ) + " glyph="@ + name_prefix(info.glyph_name) + left_aligned(
        decimal(info.glyph_pos as nat),
        4,
    ) + " "@ + info.lua_name@ + "\n"@ + left_aligned(Seq::empty(), 38) + info.diagnostic@
}

/// Whether a glyph is drawn by the terminal rather than taken from the font.
pub open spec fn is_custom(custom_block_glyphs: bool, block: Option<String>) -> bool {
    custom_block_glyphs && block is Some
}

/// `n` in decimal.
fn number(n: u64) -> (r: String)
    ensures
        r@ == decimal(n as nat),
{
    let mut out = String::new();
    push_decimal(&mut out, n);
    assert(out@ =~= decimal(n as nat));
    out
}

/// Reports a glyph. `block` names the block that the terminal can draw for it, if there is
/// one.
pub fn glyph_report(custom_block_glyphs: bool, block: &Option<String>, info: &GlyphInfo) -> (r:
    String)
    ensures
        r@ == if is_custom(custom_block_glyphs, *block) {
            block_report(*info, block->0@)
        } else {
            font_glyph_report(*info)
        },
{
    let mut out = String::new();
    push_right_aligned(&mut out, number(info.cluster as u64).as_str(), 2);
    out.push_str(" ");
    push_left_aligned(&mut out, info.text.as_str(), 4);
    out.push_str(" ");
    push_left_aligned(&mut out, escape_unicode(info.text.as_str()).as_str(), 12);
    out.push_str(" ");
    assert(out@ =~= glyph_head(*info));
    if custom_block_glyphs {
        match block {
            Some(block) => {
                out.push_str("drawn by wezterm because custom_block_glyphs=true: ");
                out.push_str(block.as_str());
                return out;
            },
            None => {},
        }
    }
    out.push_str("x_adv=");
    push_left_aligned(&mut out, info.x_advance.as_str(), 2);
    out.push_str(" cells=");
    push_left_aligned(&mut out, number(info.num_cells as u64).as_str(), 2);
    out.push_str(" glyph=");
    let ghost before_name = out@;
    match &info.glyph_name {
        Some(name) => {
            out.push_str(name.as_str());
            out.push_str(",");
        },
        None => {},
    }
    assert(out@ =~= before_name + name_prefix(info.glyph_name));
    push_left_aligned(&mut out, number(info.glyph_pos as u64).as_str(), 4);
    out.push_str(" ");
    out.push_str(info.lua_name.as_str());
    out.push_str("\n");
    push_left_aligned(&mut out, String::new().as_str(), 38);
    out.push_str(info.diagnostic.as_str());
    out
}

/// A pixel as a coloured block: its colour in plain RGB for any terminal, then with its
/// opacity for one that knows about that.
pub open spec fn pixel_text(px: u32) -> Seq<char> {
    let r = decimal((px / 0x1000000) as nat);
    let g = decimal((px / 0x10000 % 0x100) as nat);
    let b = decimal((px / 0x100 % 0x100) as nat);
    let a = decimal((px % 0x100) as nat);
    "\x1b[38:2::"@ + r + ":"@ + g + ":"@ + b + "m\x1b[38:6::"@ + r + ":"@ + g + ":"@ + b + ":"@ + a
        + "m\u{2588}\x1b[0m"@
}

/// The first `n` pixels of a row.
pub open spec fn row_text(row: Seq<u32>, n: int) -> Seq<char>
    decreases n,
{
    if n <= 0 {
        Seq::empty()
    } else {
        row_text(row, n - 1) + pixel_text(row[n - 1])
    }
}

/// The first `n` rows of an image, each ended by a line break.
pub open spec fn image_text(rows: Seq<Vec<u32>>, n: int) -> Seq<char>
    decreases n,
{
    if n <= 0 {
        Seq::empty()
    } else {
        image_text(rows, n - 1) + row_text(rows[n - 1]@, rows[n - 1]@.len() as int).push('\n')
    }
}

/// Appends a pixel, given as red, green, blue and opacity from the highest byte to the
/// lowest.
fn push_pixel(out: &mut String, px: u32)
    ensures
        final(out)@ == old(out)@ + pixel_text(px),
{
    let r: u8 = (px >> 24) as u8;
    let g: u8 = (px >> 16) as u8;
    let b: u8 = (px >> 8) as u8;
    let a: u8 = (px & 0xff) as u8;
    proof {
        assert(((px >> 24) as u8) == px / 0x1000000) by (bit_vector);
        assert(((px >> 16) as u8) == px / 0x10000 % 0x100) by (bit_vector);
        assert(((px >> 8) as u8) == px / 0x100 % 0x100) by (bit_vector);
        assert(((px & 0xff) as u8) == px % 0x100) by (bit_vector);
    }
    let ghost before = out@;
    out.push_str("\x1b[38:2::");
    push_decimal(out, r as u64);
    out.push_str(":");
    push_decimal(out, g as u64);
    out.push_str(":");
    push_decimal(out, b as u64);
    out.push_str("m\x1b[38:6::");
    push_decimal(out, r as u64);
    out.push_str(":");
    push_decimal(out, g as u64);
    out.push_str(":");
    push_decimal(out, b as u64);
    out.push_str(":");
    push_decimal(out, a as u64);
    out.push_str("m\u{2588}\x1b[0m");
    assert(out@ =~= before + pixel_text(px));
}

/// An image as coloured blocks, row by row.
pub fn rasterize(rows: &Vec<Vec<u32>>) -> (r: String)
    ensures
        r@ == image_text(rows@, rows@.len() as int),
{
    let mut glyph = String::new();
    let mut y: usize = 0;
    while y < rows.len()
        invariant
            y <= rows.len(),
            glyph@ == image_text(rows@, y as int),
        decreases rows.len() - y,
    {
        let row = &rows[y];
        let ghost above = glyph@;
        let mut x: usize = 0;
        while x < row.len()
            invariant
                x <= row.len(),
                glyph@ == above + row_text(row@, x as int),
            decreases row.len() - x,
        {
            push_pixel(&mut glyph, row[x]);
            x = x + 1;
            assert(glyph@ =~= above + row_text(row@, x as int));
        }
        glyph.push('\n');
        y = y + 1;
        assert(glyph@ =~= image_text(rows@, y as int));
    }
    glyph
}

/// The text attributes that a font rule asks for, each in text form.
pub struct FontRule {
    pub intensity: Option<String>,
    pub underline: Option<String>,
    pub italic: Option<bool>,
    pub blink: Option<String>,
    pub reverse: Option<bool>,
    pub strikethrough: Option<bool>,
    pub invisible: Option<bool>,
}

/// A condition, if there is one.
pub open spec fn condition(name: Seq<char>, value: Option<Seq<char>>) -> Seq<char> {
    match value {
        Some(value) => " "@ + name + "="@ + value,
        None => Seq::empty(),
    }
}

/// A truth value as text.
pub open spec fn truth(value: Option<bool>) -> Option<Seq<char>> {
    match value {
        Some(true) => Some("true"@),
        Some(false) => Some("false"@),
        None => None,
    }
}

/// The conditions of a font rule.
pub open spec fn rule_condition(rule: FontRule) -> Seq<char> {
    "When"@ + condition("Intensity"@, crate::publish::option_view(rule.intensity)) + condition(
        "Underline"@,
        crate::publish::option_view(rule.underline),
    ) + condition("Italic"@, truth(rule.italic)) + condition(
        "Blink"@,
        crate::publish::option_view(rule.blink),
    ) + condition("Reverse"@, truth(rule.reverse)) + condition(
        "Strikethrough"@,
        truth(rule.strikethrough),
    ) + condition("Invisible"@, truth(rule.invisible))
}

/// Appends a condition, if there is one.
fn push_condition(out: &mut String, name: &str, value: &Option<String>)
    ensures
        final(out)@ == old(out)@ + condition(name@, crate::publish::option_view(*value)),
{
    let ghost before = out@;
    match value {
        Some(value) => {
            out.push_str(" ");
            out.push_str(name);
            out.push_str("=");
            out.push_str(value.as_str());
        },
        None => {},
    }
    assert(out@ =~= before + condition(name@, crate::publish::option_view(*value)));
}

/// Appends a condition on a truth value, if there is one.
fn push_flag(out: &mut String, name: &str, value: Option<bool>)
    ensures
        final(out)@ == old(out)@ + condition(name@, truth(value)),
{
    let text = match value {
        Some(true) => Some("true".to_string()),
        Some(false) => Some("false".to_string()),
        None => None,
    };
    push_condition(out, name, &text);
}

/// The conditions of a font rule.
pub fn font_rule_condition(rule: &FontRule) -> (r: String)
    ensures
        r@ == rule_condition(*rule),
{
    let mut out = "When".to_string();
    push_condition(&mut out, "Intensity", &rule.intensity);
    push_condition(&mut out, "Underline", &rule.underline);
    push_flag(&mut out, "Italic", rule.italic);
    push_condition(&mut out, "Blink", &rule.blink);
    push_flag(&mut out, "Reverse", rule.reverse);
    push_flag(&mut out, "Strikethrough", rule.strikethrough);
    push_flag(&mut out, "Invisible", rule.invisible);
    out
}

/// The section on the primary font; `fonts` is its configuration text.
pub open spec fn primary_section(fonts: Seq<char>) -> Seq<char> {
    "Primary font:\n"@ + fonts + "\n\n"@
}

/// What stands before the fonts of a rule.
pub open spec fn rule_heading(rule: FontRule) -> Seq<char> {
    "\n"@ + rule_condition(rule) + ":\n"@
}

/// The section on a font rule.
pub open spec fn rule_section(rule: FontRule, fonts: Seq<char>) -> Seq<char> {
    rule_heading(rule) + fonts + "\n\n"@
}

/// The section on the title font.
pub open spec fn title_section(fonts: Seq<char>) -> Seq<char> {
    "Title font:\n"@ + fonts + "\n\n"@
}

/// The sections on the first `n` rules, in order.
pub open spec fn rule_sections(rules: Seq<(FontRule, String)>, n: int) -> Seq<char>
    decreases n,
{
    if n <= 0 {
        Seq::empty()
    } else {
        let (rule, fonts) = rules[n - 1];
        rule_sections(rules, n - 1) + rule_section(rule, fonts@)
    }
}

/// The report on the configured fonts: the primary font, then each rule in order, then the
/// title font.
pub open spec fn report_text(
    primary: Seq<char>,
    rules: Seq<(FontRule, String)>,
    title: Seq<char>,
) -> Seq<char> {
    primary_section(primary) + rule_sections(rules, rules.len() as int) + title_section(title)
}

/// What stands before the fonts of a rule.
fn heading_of_rule(rule: &FontRule) -> (r: String)
    ensures
        r@ == rule_heading(*rule),
{
    let mut out = "\n".to_string();
    out.push_str(font_rule_condition(rule).as_str());
    out.push_str(":\n");
    out
}

/// The report on the configured fonts: the primary font, then each rule in order, then the
/// title font. A rule comes with the configuration text of its fonts.
pub fn font_report(primary: &str, rules: &Vec<(FontRule, String)>, title: &str) -> (r: String)
    ensures
        r@ == report_text(primary@, rules@, title@),
{
    let mut out = "Primary font:\n".to_string();
    out.push_str(primary);
    out.push_str("\n\n");
    assert(out@ =~= primary_section(primary@));
    let mut i: usize = 0;
    while i < rules.len()
        invariant
            i <= rules.len(),
            out@ == primary_section(primary@) + rule_sections(rules@, i as int),
        decreases rules.len() - i,
    {
        let (rule, fonts) = &rules[i];
        out.push_str(heading_of_rule(rule).as_str());
        out.push_str(fonts.as_str());
        out.push_str("\n\n");
        i = i + 1;
        assert(out@ =~= primary_section(primary@) + rule_sections(rules@, i as int));
    }
    out.push_str("Title font:\n");
    out.push_str(title);
    out.push_str("\n\n");
    assert(out@ =~= report_text(primary@, rules@, title@));
    out
}

/// A step of printing the report on fonts.
pub enum ReportStep {
    /// Print this.
    Print(String),
    /// Look up the primary font and print its configuration text.
    PrimaryFont,
    /// Look up the fonts of this rule and print their configuration text.
    RuleFont(usize),
    /// Look up the title font and print its configuration text.
    TitleFont,
    /// Find the fonts of the font directories and print the section on them.
    FontDirs,
    /// Find the system's fonts and print the section on them.
    SystemFonts,
}

/// A step of printing the report on fonts, as a mathematical value.
pub enum ReportStepView {
    Print(Seq<char>),
    PrimaryFont,
    RuleFont(int),
    TitleFont,
    FontDirs,
    SystemFonts,
}

impl View for ReportStep {
    type V = ReportStepView;

    open spec fn view(&self) -> ReportStepView {
        match *self {
            ReportStep::Print(text) => ReportStepView::Print(text@),
            ReportStep::PrimaryFont => ReportStepView::PrimaryFont,
            ReportStep::RuleFont(i) => ReportStepView::RuleFont(i as int),
            ReportStep::TitleFont => ReportStepView::TitleFont,
            ReportStep::FontDirs => ReportStepView::FontDirs,
            ReportStep::SystemFonts => ReportStepView::SystemFonts,
        }
    }
}

/// The views of a run of steps.
pub open spec fn step_views(steps: Seq<ReportStep>) -> Seq<ReportStepView> {
    steps.map_values(|s: ReportStep| s@)
}

/// The steps for the first `n` rules.
pub open spec fn rule_steps(rules: Seq<FontRule>, n: int) -> Seq<ReportStepView>
    decreases n,
{
    if n <= 0 {
        Seq::empty()
    } else {
        rule_steps(rules, n - 1) + seq![
            ReportStepView::Print(rule_heading(rules[n - 1])),
            ReportStepView::RuleFont(n - 1),
            ReportStepView::Print("\n\n"@),
        ]
    }
}

/// The steps that list all fonts that can be found, where that was asked for.
pub open spec fn listing_steps(list_system: bool) -> Seq<ReportStepView> {
    if list_system {
        seq![ReportStepView::FontDirs, ReportStepView::SystemFonts]
    } else {
        Seq::empty()
    }
}

/// The steps of printing the report, in order: each heading comes before its lookup.
pub open spec fn all_report_steps(rules: Seq<FontRule>, list_system: bool) -> Seq<ReportStepView> {
    seq![
        ReportStepView::Print("Primary font:\n"@),
        ReportStepView::PrimaryFont,
        ReportStepView::Print("\n\n"@),
    ] + rule_steps(rules, rules.len() as int) + seq![
        ReportStepView::Print("Title font:\n"@),
        ReportStepView::TitleFont,
        ReportStepView::Print("\n\n"@),
    ] + listing_steps(list_system)
}

/// The steps of printing the report, in order. A lookup that fails ends it, with what stands
/// before it printed.
pub fn report_steps(rules: &Vec<FontRule>, list_system: bool) -> (r: Vec<ReportStep>)
    ensures
        step_views(r@) == all_report_steps(rules@, list_system),
{
    let mut steps = vec![
        ReportStep::Print("Primary font:\n".to_string()),
        ReportStep::PrimaryFont,
        ReportStep::Print("\n\n".to_string()),
    ];
    let ghost head = seq![
        ReportStepView::Print("Primary font:\n"@),
        ReportStepView::PrimaryFont,
        ReportStepView::Print("\n\n"@),
    ];
    assert(step_views(steps@) =~= head);
    let mut i: usize = 0;
    while i < rules.len()
        invariant
            i <= rules.len(),
            step_views(steps@) == head + rule_steps(rules@, i as int),
        decreases rules.len() - i,
    {
        let ghost before = step_views(steps@);
        steps.push(ReportStep::Print(heading_of_rule(&rules[i])));
        steps.push(ReportStep::RuleFont(i));
        steps.push(ReportStep::Print("\n\n".to_string()));
        assert(step_views(steps@) =~= before + seq![
            ReportStepView::Print(rule_heading(rules@[i as int])),
            ReportStepView::RuleFont(i as int),
            ReportStepView::Print("\n\n"@),
        ]);
        i = i + 1;
        assert(step_views(steps@) =~= head + rule_steps(rules@, i as int));
    }
    steps.push(ReportStep::Print("Title font:\n".to_string()));
    steps.push(ReportStep::TitleFont);
    steps.push(ReportStep::Print("\n\n".to_string()));
    if list_system {
        steps.push(ReportStep::FontDirs);
        steps.push(ReportStep::SystemFonts);
    }
    assert(step_views(steps@) =~= all_report_steps(rules@, list_system));
    steps
}

/// What a step prints where its lookup works. Sections that list fonts are left out.
pub open spec fn step_text(
    step: ReportStepView,
    primary: Seq<char>,
    rules: Seq<(FontRule, String)>,
    title: Seq<char>,
) -> Seq<char> {
    match step {
        ReportStepView::Print(text) => text,
        ReportStepView::PrimaryFont => primary,
        ReportStepView::RuleFont(i) => {
            let (_, fonts) = rules[i];
            fonts@
        },
        ReportStepView::TitleFont => title,
        ReportStepView::FontDirs => Seq::empty(),
        ReportStepView::SystemFonts => Seq::empty(),
    }
}

/// What the first `n` of `steps` print where all lookups work. Sections that list fonts are
/// left out.
pub open spec fn printed(
    steps: Seq<ReportStepView>,
    primary: Seq<char>,
    rules: Seq<(FontRule, String)>,
    title: Seq<char>,
    n: int,
) -> Seq<char>
    decreases n,
{
    if n <= 0 {
        Seq::empty()
    } else {
        printed(steps, primary, rules, title, n - 1) + step_text(
            steps[n - 1],
            primary,
            rules,
            title,
        )
    }
}

/// The rules without the fonts that they come with.
pub open spec fn bare_rules(rules: Seq<(FontRule, String)>) -> Seq<FontRule> {
    rules.map_values(
        |entry: (FontRule, String)|
            {
                let (rule, _) = entry;
                rule
            },
    )
}

proof fn lemma_rule_steps_len(rules: Seq<FontRule>, n: int)
    requires
        0 <= n,
    ensures
        rule_steps(rules, n).len() == 3 * n,
    decreases n,
{
    if n > 0 {
        lemma_rule_steps_len(rules, n - 1);
    }
}

proof fn lemma_rule_step(rules: Seq<FontRule>, n: int, i: int)
    requires
        0 <= i < n,
    ensures
        rule_steps(rules, n)[3 * i] == ReportStepView::Print(rule_heading(rules[i])),
        rule_steps(rules, n)[3 * i + 1] == ReportStepView::RuleFont(i),
        rule_steps(rules, n)[3 * i + 2] == ReportStepView::Print("\n\n"@),
    decreases n,
{
    lemma_rule_steps_len(rules, n - 1);
    if i < n - 1 {
        lemma_rule_step(rules, n - 1, i);
    }
}

proof fn lemma_three_steps(
    steps: Seq<ReportStepView>,
    primary: Seq<char>,
    rules: Seq<(FontRule, String)>,
    title: Seq<char>,
    n: int,
)
    requires
        0 <= n,
    ensures
        printed(steps, primary, rules, title, n + 3) == printed(steps, primary, rules, title, n)
            + (step_text(steps[n], primary, rules, title) + step_text(
            steps[n + 1],
            primary,
            rules,
            title,
        ) + step_text(steps[n + 2], primary, rules, title)),
{
    let a = printed(steps, primary, rules, title, n + 1);
    let b = printed(steps, primary, rules, title, n + 2);
    assert(a == printed(steps, primary, rules, title, n) + step_text(
        steps[n],
        primary,
        rules,
        title,
    ));
    assert(b == a + step_text(steps[n + 1], primary, rules, title));
    assert(printed(steps, primary, rules, title, n + 3) == b + step_text(
        steps[n + 2],
        primary,
        rules,
        title,
    ));
    assert(printed(steps, primary, rules, title, n + 3) =~= printed(
        steps,
        primary,
        rules,
        title,
        n,
    ) + (step_text(steps[n], primary, rules, title) + step_text(
        steps[n + 1],
        primary,
        rules,
        title,
    ) + step_text(steps[n + 2], primary, rules, title)));
}

#[verifier::rlimit(30)]
proof fn lemma_printed_rules(
    primary: Seq<char>,
    rules: Seq<(FontRule, String)>,
    title: Seq<char>,
    list_system: bool,
    n: int,
)
    requires
        0 <= n <= rules.len(),
    ensures
        printed(
            all_report_steps(bare_rules(rules), list_system),
            primary,
            rules,
            title,
            3 + 3 * n,
        ) == primary_section(primary) + rule_sections(rules, n),
    decreases n,
{
    let bare = bare_rules(rules);
    let steps = all_report_steps(bare, list_system);
    let count = rules.len() as int;
    lemma_rule_steps_len(bare, count);
    if n == 0 {
        lemma_three_steps(steps, primary, rules, title, 0);
        assert(printed(steps, primary, rules, title, 3) =~= primary_section(primary)
            + rule_sections(rules, 0));
    } else {
        let (rule, fonts) = rules[n - 1];
        lemma_printed_rules(primary, rules, title, list_system, n - 1);
        lemma_rule_step(bare, count, n - 1);
        lemma_three_steps(steps, primary, rules, title, 3 * n);
        assert(bare[n - 1] == rule);
        assert(steps[3 * n] == ReportStepView::Print(rule_heading(rule)));
        assert(steps[3 * n + 1] == ReportStepView::RuleFont(n - 1));
        assert(steps[3 * n + 2] == ReportStepView::Print("\n\n"@));
        assert(printed(steps, primary, rules, title, 3 * n + 3) =~= primary_section(primary)
            + rule_sections(rules, n - 1) + rule_section(rule, fonts@));
        assert(primary_section(primary) + rule_sections(rules, n - 1) + rule_section(rule, fonts@)
            =~= primary_section(primary) + rule_sections(rules, n));
    }
}

/// Step by step the same report is printed: where all lookups work, the steps print the
/// primary section, a section for each rule in order and the title section; and only then,
/// and only where that was asked for, the fonts that can be found.
pub proof fn law_steps_print_the_report(
    primary: Seq<char>,
    rules: Seq<(FontRule, String)>,
    title: Seq<char>,
    list_system: bool,
)
    ensures
        ({
            let steps = all_report_steps(bare_rules(rules), list_system);
            let count = 6 + 3 * rules.len();
            &&& printed(steps, primary, rules, title, count as int) == report_text(
                primary,
                rules,
                title,
            )
            &&& steps.skip(count as int) == listing_steps(list_system)
            &&& forall|i: int|
                0 <= i < count ==> !(#[trigger] steps[i] is FontDirs || steps[i] is SystemFonts)
        }),
{
    let bare = bare_rules(rules);
    let steps = all_report_steps(bare, list_system);
    let count = rules.len() as int;
    lemma_printed_rules(primary, rules, title, list_system, count);
    lemma_rule_steps_len(bare, count);
    lemma_three_steps(steps, primary, rules, title, 3 + 3 * count);
    assert(steps[3 + 3 * count] == ReportStepView::Print("Title font:\n"@));
    assert(steps[4 + 3 * count] == ReportStepView::TitleFont);
    assert(steps[5 + 3 * count] == ReportStepView::Print("\n\n"@));
    assert(printed(steps, primary, rules, title, 6 + 3 * count) =~= report_text(
        primary,
        rules,
        title,
    ));
    assert(steps.skip(6 + 3 * count) =~= listing_steps(list_system));
    assert forall|i: int| 0 <= i < 6 + 3 * count implies !(#[trigger] steps[i] is FontDirs
        || steps[i] is SystemFonts) by {
        if 3 <= i < 3 + 3 * count {
            let k = (i - 3) / 3;
            lemma_rule_step(bare, count, k);
            assert(steps[i] == rule_steps(bare, count)[i - 3]);
        }
    }
}

/// A font that was found.
pub struct FontEntry {
    pub lua_name: String,
    pub aka: String,
    pub diagnostic: String,
    pub pixel_sizes: Vec<u16>,
}

/// The first `n` sizes, with a comma and a space between two.
pub open spec fn size_list(sizes: Seq<u16>, n: int) -> Seq<char>
    decreases n,
{
    if n <= 0 {
        Seq::empty()
    } else if n == 1 {
        decimal(sizes[0] as nat)
    } else {
        size_list(sizes, n - 1) + ", "@ + decimal(sizes[n - 1] as nat)
    }
}

/// The pixel sizes of a font, if it lists any.
pub open spec fn pixel_sizes_text(sizes: Seq<u16>) -> Seq<char> {
    if sizes.len() == 0 {
        Seq::empty()
    } else {
        " pixel_sizes=["@ + size_list(sizes, sizes.len() as int) + "]"@
    }
}

/// A line about a font that was found.
pub open spec fn entry_text(font: FontEntry) -> Seq<char> {
    font.lua_name@ + " -- "@ + font.aka@ + font.diagnostic@ + pixel_sizes_text(font.pixel_sizes@)
}

/// Appends the pixel sizes of a font, if it lists any.
fn push_pixel_sizes(out: &mut String, sizes: &Vec<u16>)
    ensures
        final(out)@ == old(out)@ + pixel_sizes_text(sizes@),
{
    let ghost before = out@;
    if sizes.len() > 0 {
        out.push_str(" pixel_sizes=[");
        let ghost start = out@;
        let mut i: usize = 0;
        while i < sizes.len()
            invariant
                i <= sizes.len(),
                out@ == start + size_list(sizes@, i as int),
            decreases sizes.len() - i,
        {
            if i > 0 {
                out.push_str(", ");
            }
            push_decimal(out, sizes[i] as u64);
            i = i + 1;
            assert(out@ =~= start + size_list(sizes@, i as int));
        }
        out.push_str("]");
    }
    assert(out@ =~= before + pixel_sizes_text(sizes@));
}

/// A line about a font that was found.
pub fn font_entry(font: &FontEntry) -> (r: String)
    ensures
        r@ == entry_text(*font),
{
    let mut out = font.lua_name.clone();
    out.push_str(" -- ");
    out.push_str(font.aka.as_str());
    out.push_str(font.diagnostic.as_str());
    push_pixel_sizes(&mut out, &font.pixel_sizes);
    out
}

/// The first `n` fonts that were found, a line each.
pub open spec fn entry_lines(fonts: Seq<FontEntry>, n: int) -> Seq<char>
    decreases n,
{
    if n <= 0 {
        Seq::empty()
    } else {
        entry_lines(fonts, n - 1) + entry_text(fonts[n - 1]) + "\n"@
    }
}

/// Appends the fonts that were found, a line each.
fn push_entries(out: &mut String, fonts: &Vec<FontEntry>)
    ensures
        final(out)@ == old(out)@ + entry_lines(fonts@, fonts@.len() as int),
{
    let ghost before = out@;
    let mut i: usize = 0;
    assert(out@ =~= before + entry_lines(fonts@, 0));
    while i < fonts.len()
        invariant
            i <= fonts.len(),
            out@ == before + entry_lines(fonts@, i as int),
        decreases fonts.len() - i,
    {
        out.push_str(font_entry(&fonts[i]).as_str());
        out.push_str("\n");
        i = i + 1;
        assert(out@ =~= before + entry_lines(fonts@, i as int));
    }
}

/// The section on the fonts of the font directories.
pub fn font_dirs_section(fonts: &Vec<FontEntry>) -> (r: String)
    ensures
        r@ == decimal(fonts@.len()) + " fonts found in your font_dirs + built-in fonts:\n"@
            + entry_lines(fonts@, fonts@.len() as int),
{
    let mut out = number(fonts.len() as u64);
    out.push_str(" fonts found in your font_dirs + built-in fonts:\n");
    push_entries(&mut out, fonts);
    out
}

/// The section on the system's fonts, found by `locator`.
pub fn system_fonts_section(fonts: &Vec<FontEntry>, locator: &str) -> (r: String)
    ensures
        r@ == decimal(fonts@.len()) + " system fonts found using "@ + locator@ + ":\n"@
            + entry_lines(fonts@, fonts@.len() as int),
{
    let mut out = number(fonts.len() as u64);
    out.push_str(" system fonts found using ");
    out.push_str(locator);
    out.push_str(":\n");
    push_entries(&mut out, fonts);
    out
}

/// A glyph's columns begin with the cell of its first byte. In text from right to left they end
/// behind the cell of the last byte of its character, whatever glyph follows.
pub proof fn law_glyph_begins_in_its_cell(cluster: Cluster, byte: int, next: Option<usize>)
    requires
        cluster.has_glyph(byte, next),
    ensures
        cluster.columns(byte, next).start == cluster.cell_of_byte@[byte],
        !cluster.left_to_right ==> cluster.columns(byte, next).end == cluster.cell_of_byte@[byte
            + cluster.byte_lens@[byte] - 1] + 1,
        cluster.left_to_right && next is Some ==> cluster.columns(byte, next).end
            == cluster.cell_of_byte@[next->0 as int],
        cluster.left_to_right && next is None ==> cluster.columns(byte, next).end
            == cluster.cell_of_byte@[cluster.cell_of_byte@.len() - 1] + 1,
{
}

/// The cell in a column shows a text exactly where it is there and holds that text.
pub proof fn law_cell_shows_its_text(cells: Seq<LineCell>, i: int, index: int, text: Seq<char>)
    requires
        forall|a: int, b: int|
            0 <= a < b < cells.len() ==> (#[trigger] cells[a]).index != (
            #[trigger] cells[b]).index,
    ensures
        0 <= i < cells.len() ==> (shows(cells, cells[i].index as int, text) <==> cells[i].text@
            == text),
        (forall|a: int| 0 <= a < cells.len() ==> (#[trigger] cells[a]).index != index) ==> !shows(
            cells,
            index,
            text,
        ),
{
    if 0 <= i < cells.len() {
        if cells[i].text@ == text {
            assert forall|j: int| 0 <= j < i implies (#[trigger] cells[j]).index
                != cells[i].index by {
                assert(cells[j].index != cells[i].index);
            }
        }
        if shows(cells, cells[i].index as int, text) {
            let k = choose|k: int|
                0 <= k < cells.len() && (#[trigger] cells[k]).index == cells[i].index
                    && cells[k].text@ == text && (forall|j: int|
                    0 <= j < k ==> (#[trigger] cells[j]).index != cells[i].index);
            if k < i {
                assert(cells[k].index != cells[i].index);
            } else if i < k {
                assert(cells[i].index != cells[k].index);
            }
        }
    }
}

/// A glyph is drawn by the terminal exactly where that is configured and there is a block for
/// it. A report of one begins like that of one from a font, and a font's ends with where the
/// font was found, on a line of its own behind its name.
pub proof fn law_glyph_report_names_its_source(info: GlyphInfo, block: Option<String>, on: bool)
    ensures
        is_custom(on, block) <==> on && block is Some,
        block_report(info, block->0@).take(glyph_head(info).len() as int) == glyph_head(info),
        font_glyph_report(info).take(glyph_head(info).len() as int) == glyph_head(info),
        ({
            let tail = info.lua_name@ + "\n"@ + left_aligned(Seq::empty(), 38) + info.diagnostic@;
            &&& tail.len() <= font_glyph_report(info).len()
            &&& font_glyph_report(info).skip(font_glyph_report(info).len() - tail.len()) == tail
        }),
        ({
            let tail = block->0@;
            &&& tail.len() <= block_report(info, tail).len()
            &&& block_report(info, tail).skip(block_report(info, tail).len() - tail.len()) == tail
        }),
{
    let head = glyph_head(info);
    let report = font_glyph_report(info);
    let tail = info.lua_name@ + "\n"@ + left_aligned(Seq::empty(), 38) + info.diagnostic@;
    assert(report.take(head.len() as int) =~= head);
    assert(report.skip(report.len() - tail.len()) =~= tail);
    let drawn = block_report(info, block->0@);
    assert(drawn.take(head.len() as int) =~= head);
    assert(drawn.skip(drawn.len() - block->0@.len()) =~= block->0@);
}

/// The block that shows a colour, from the texts of its red, green and blue parts and of its
/// opacity.
pub open spec fn coloured_block(
    r: Seq<char>,
    g: Seq<char>,
    b: Seq<char>,
    a: Seq<char>,
) -> Seq<char> {
    "\x1b[38:2::"@ + r + ":"@ + g + ":"@ + b + "m\x1b[38:6::"@ + r + ":"@ + g + ":"@ + b + ":"@ + a
        + "m\u{2588}\x1b[0m"@
}

/// A pixel shows its four parts as they are: red, green, blue and opacity, from the highest
/// byte to the lowest.
pub proof fn law_pixel_shows_its_parts(red: u8, green: u8, blue: u8, opacity: u8, px: u32)
    requires
        px == red * 0x1000000 + green * 0x10000 + blue * 0x100 + opacity,
    ensures
        pixel_text(px) == coloured_block(
            decimal(red as nat),
            decimal(green as nat),
            decimal(blue as nat),
            decimal(opacity as nat),
        ),
{
    assert(px / 0x1000000 == red);
    assert(px / 0x10000 == red * 0x100 + green);
    assert(px / 0x10000 % 0x100 == green);
    assert(px / 0x100 == red * 0x10000 + green * 0x100 + blue);
    assert(px / 0x100 % 0x100 == blue);
    assert(px % 0x100 == opacity);
}

/// An image is printed row by row and a row pixel by pixel, in order: each row ends with one
/// line break, and rows and pixels that come behind others change nothing about these.
pub proof fn law_image_goes_row_by_row(
    rows: Seq<Vec<u32>>,
    row: Vec<u32>,
    pixels: Seq<u32>,
    px: u32,
)
    ensures
        image_text(rows.push(row), rows.len() as int + 1) == image_text(rows, rows.len() as int)
            + row_text(row@, row@.len() as int) + seq!['\n'],
        image_text(rows, 0).len() == 0,
        row_text(pixels.push(px), pixels.len() as int + 1) == row_text(pixels, pixels.len() as int)
            + pixel_text(px),
        row_text(pixels, 0).len() == 0,
{
    lemma_image_prefix(rows, row, rows.len() as int);
    lemma_row_prefix(pixels, px, pixels.len() as int);
    assert(image_text(rows.push(row), rows.len() as int + 1) =~= image_text(rows, rows.len() as int)
        + row_text(row@, row@.len() as int) + seq!['\n']);
}

proof fn lemma_image_prefix(rows: Seq<Vec<u32>>, row: Vec<u32>, n: int)
    requires
        0 <= n <= rows.len(),
    ensures
        image_text(rows.push(row), n) == image_text(rows, n),
    decreases n,
{
    if n > 0 {
        lemma_image_prefix(rows, row, n - 1);
    }
}

proof fn lemma_row_prefix(pixels: Seq<u32>, px: u32, n: int)
    requires
        0 <= n <= pixels.len(),
    ensures
        row_text(pixels.push(px), n) == row_text(pixels, n),
    decreases n,
{
    if n > 0 {
        lemma_row_prefix(pixels, px, n - 1);
    }
}

/// The condition of a rule names each attribute that it asks for, with its value, and leaves
/// out the others: a rule that asks for nothing has none, asking for one more attribute adds
/// just that one's name and value, and one that comes last in the order is added at the end.
pub proof fn law_rule_names_what_it_asks_for(rule: FontRule, value: String, flag: bool)
    ensures
        rule.intensity is None && rule.underline is None && rule.italic is None && rule.blink
            is None && rule.reverse is None && rule.strikethrough is None && rule.invisible
            is None ==> rule_condition(rule) == "When"@,
        ({
            let without = FontRule { invisible: None, ..rule };
            rule_condition(FontRule { invisible: Some(flag), ..rule }) == rule_condition(without)
                + " "@ + "Invisible"@ + "="@ + truth_text(flag)
        }),
        ({
            let rest = FontRule { invisible: None, ..rule };
            let without = FontRule { strikethrough: None, ..rest };
            rule_condition(FontRule { strikethrough: Some(flag), ..rest }) == rule_condition(
                without,
            ) + " "@ + "Strikethrough"@ + "="@ + truth_text(flag)
        }),
        ({
            let rest = FontRule { invisible: None, strikethrough: None, ..rule };
            let without = FontRule { reverse: None, ..rest };
            rule_condition(FontRule { reverse: Some(flag), ..rest }) == rule_condition(without)
                + " "@ + "Reverse"@ + "="@ + truth_text(flag)
        }),
        ({
            let rest = FontRule { invisible: None, strikethrough: None, reverse: None, ..rule };
            let without = FontRule { blink: None, ..rest };
            rule_condition(FontRule { blink: Some(value), ..rest }) == rule_condition(without)
                + " "@ + "Blink"@ + "="@ + value@
        }),
        ({
            let rest = FontRule {
                invisible: None,
                strikethrough: None,
                reverse: None,
                blink: None,
                ..rule
            };
            let without = FontRule { italic: None, ..rest };
            rule_condition(FontRule { italic: Some(flag), ..rest }) == rule_condition(without)
                + " "@ + "Italic"@ + "="@ + truth_text(flag)
        }),
        ({
            let rest = FontRule {
                invisible: None,
                strikethrough: None,
                reverse: None,
                blink: None,
                italic: None,
                ..rule
            };
            let without = FontRule { underline: None, ..rest };
            rule_condition(FontRule { underline: Some(value), ..rest }) == rule_condition(without)
                + " "@ + "Underline"@ + "="@ + value@
        }),
        ({
            let alone = FontRule {
                intensity: Some(value),
                underline: None,
                italic: None,
                blink: None,
                reverse: None,
                strikethrough: None,
                invisible: None,
            };
            rule_condition(alone) == "When"@ + " "@ + "Intensity"@ + "="@ + value@
        }),
{
    let intensity = "When"@ + condition(
        "Intensity"@,
        crate::publish::option_view(rule.intensity),
    );
    let underline = intensity + condition(
        "Underline"@,
        crate::publish::option_view(rule.underline),
    );
    let italic = underline + condition("Italic"@, truth(rule.italic));
    let blink = italic + condition("Blink"@, crate::publish::option_view(rule.blink));
    let reverse = blink + condition("Reverse"@, truth(rule.reverse));
    let strikethrough = reverse + condition("Strikethrough"@, truth(rule.strikethrough));
    lemma_condition_is_appended("When"@, "Intensity"@, value@);
    lemma_condition_is_appended(intensity, "Underline"@, value@);
    lemma_condition_is_appended(underline, "Italic"@, truth_text(flag));
    lemma_condition_is_appended(italic, "Blink"@, value@);
    lemma_condition_is_appended(blink, "Reverse"@, truth_text(flag));
    lemma_condition_is_appended(reverse, "Strikethrough"@, truth_text(flag));
    lemma_condition_is_appended(strikethrough, "Invisible"@, truth_text(flag));
    assert forall|text: Seq<char>| #[trigger] (text + Seq::<char>::empty()) == text by {
        assert(text + Seq::<char>::empty() =~= text);
    }
}

proof fn lemma_condition_is_appended(before: Seq<char>, name: Seq<char>, value: Seq<char>)
    ensures
        before + condition(name, Some(value)) == before + " "@ + name + "="@ + value,
{
    assert(before + condition(name, Some(value)) =~= before + " "@ + name + "="@ + value);
}

/// A truth value in words.
pub open spec fn truth_text(flag: bool) -> Seq<char> {
    if flag {
        "true"@
    } else {
        "false"@
    }
}

/// The sizes of a font are listed in order, joined by commas, each as its number; a font that
/// lists none says nothing about sizes.
pub proof fn law_sizes_are_joined(sizes: Seq<u16>, n: int)
    requires
        0 <= n <= sizes.len(),
    ensures
        size_list(sizes, n) == crate::text::join_all(
            sizes.take(n).map_values(|size: u16| decimal(size as nat)),
            ", "@,
        ),
        sizes.len() == 0 ==> pixel_sizes_text(sizes).len() == 0,
        sizes.len() > 0 ==> pixel_sizes_text(sizes) == " pixel_sizes=["@ + size_list(
            sizes,
            sizes.len() as int,
        ) + "]"@,
    decreases n,
{
    let shown = |size: u16| decimal(size as nat);
    let all = sizes.take(n).map_values(shown);
    if n > 0 {
        law_sizes_are_joined(sizes, n - 1);
        assert(all.drop_last() =~= sizes.take(n - 1).map_values(shown));
        assert(all.last() == decimal(sizes[n - 1] as nat));
    }
}

/// The report has a section for every rule, none left out and none twice: the sections of two
/// runs of rules are those of both, and a single rule's is its condition with its fonts.
pub proof fn law_every_rule_has_its_section(
    a: Seq<(FontRule, String)>,
    b: Seq<(FontRule, String)>,
    rule: FontRule,
    fonts: String,
    primary: Seq<char>,
    title: Seq<char>,
)
    ensures
        rule_sections(a + b, (a + b).len() as int) == rule_sections(a, a.len() as int)
            + rule_sections(b, b.len() as int),
        report_text(primary, seq![(rule, fonts)], title) == "Primary font:\n"@ + primary + "\n\n"@
            + ("\n"@ + rule_condition(rule) + ":\n"@ + fonts@ + "\n\n"@) + ("Title font:\n"@ + title
            + "\n\n"@),
        report_text(primary, Seq::empty(), title) == "Primary font:\n"@ + primary + "\n\n"@ + (
        "Title font:\n"@ + title + "\n\n"@),
        report_text(primary, a, title) == "Primary font:\n"@ + primary + "\n\n"@ + rule_sections(
            a,
            a.len() as int,
        ) + ("Title font:\n"@ + title + "\n\n"@),
{
    lemma_rule_sections_concat(a, b, b.len() as int);
    let one = seq![(rule, fonts)];
    assert(rule_sections(one, 0) =~= Seq::empty());
    assert(rule_sections(one, 1) =~= rule_section(rule, fonts@));
    assert(report_text(primary, one, title) =~= "Primary font:\n"@ + primary + "\n\n"@ + ("\n"@
        + rule_condition(rule) + ":\n"@ + fonts@ + "\n\n"@) + ("Title font:\n"@ + title + "\n\n"@));
    assert(report_text(primary, Seq::empty(), title) =~= "Primary font:\n"@ + primary + "\n\n"@ + (
    "Title font:\n"@ + title + "\n\n"@));
    assert(report_text(primary, a, title) =~= "Primary font:\n"@ + primary + "\n\n"@
        + rule_sections(a, a.len() as int) + ("Title font:\n"@ + title + "\n\n"@));
}

proof fn lemma_rule_sections_concat(
    a: Seq<(FontRule, String)>,
    b: Seq<(FontRule, String)>,
    n: int,
)
    requires
        0 <= n <= b.len(),
    ensures
        rule_sections(a + b, a.len() + n) == rule_sections(a, a.len() as int) + rule_sections(
            b,
            n,
        ),
    decreases n,
{
    if n == 0 {
        lemma_rule_sections_prefix(a, b, a.len() as int);
        assert(rule_sections(b, 0) =~= Seq::empty());
        assert(rule_sections(a + b, a.len() as int) =~= rule_sections(a, a.len() as int)
            + rule_sections(b, 0));
    } else {
        lemma_rule_sections_concat(a, b, n - 1);
        assert((a + b)[a.len() + n - 1] == b[n - 1]);
        assert(rule_sections(a + b, a.len() + n) =~= rule_sections(a, a.len() as int)
            + rule_sections(b, n));
    }
}

proof fn lemma_rule_sections_prefix(
    a: Seq<(FontRule, String)>,
    b: Seq<(FontRule, String)>,
    n: int,
)
    requires
        0 <= n <= a.len(),
    ensures
        rule_sections(a + b, n) == rule_sections(a, n),
    decreases n,
{
    if n > 0 {
        lemma_rule_sections_prefix(a, b, n - 1);
        assert((a + b)[n - 1] == a[n - 1]);
    }
}

/// The fonts that were found are listed one by one, a line each, in order.
pub proof fn law_each_font_has_its_line(fonts: Seq<FontEntry>, n: int)
    requires
        0 < n <= fonts.len(),
    ensures
        entry_lines(fonts, 0).len() == 0,
        entry_lines(fonts, n) == entry_lines(fonts, n - 1) + (fonts[n - 1].lua_name@ + " -- "@
            + fonts[n - 1].aka@ + fonts[n - 1].diagnostic@ + pixel_sizes_text(
            fonts[n - 1].pixel_sizes@,
        )) + "\n"@,
{
}

/// Fonts that can be found are listed exactly where that was asked for: first those of the font
/// directories, then the system's, both behind the report on the configured ones.
pub proof fn law_found_fonts_are_listed_where_asked_for(rules: Seq<FontRule>, list_system: bool)
    ensures
        ({
            let steps = all_report_steps(rules, list_system);
            let listed = steps.len() >= 2 && steps[steps.len() - 2] is FontDirs && steps.last()
                is SystemFonts;
            &&& list_system ==> listed && steps.take(steps.len() - 2) == all_report_steps(
                rules,
                false,
            )
            &&& !list_system ==> steps.last() == ReportStepView::Print("\n\n"@)
        }),
{
    let steps = all_report_steps(rules, list_system);
    let quiet = all_report_steps(rules, false);
    if list_system {
        assert(steps.take(steps.len() - 2) =~= quiet);
    }
}

/// What the report of a glyph from a font says: its advance, its cells, its place in the font
/// and the font, with its name and a comma before the place exactly where it has one. One that
/// the terminal draws says so and names the block.
pub proof fn law_glyph_report_says_what_was_found(info: GlyphInfo, name: String, block: Seq<char>)
    ensures
        ({
            let measures = "x_adv="@ + left_aligned(info.x_advance@, 2) + " cells="@
                + left_aligned(decimal(info.num_cells as nat), 2) + " glyph="@;
            let place = left_aligned(decimal(info.glyph_pos as nat), 4) + " "@ + info.lua_name@
                + "\n"@ + left_aligned(Seq::empty(), 38) + info.diagnostic@;
            &&& font_glyph_report(GlyphInfo { glyph_name: None, ..info }) == glyph_head(info)
                + measures + place
            &&& font_glyph_report(GlyphInfo { glyph_name: Some(name), ..info }) == glyph_head(info)
                + measures + (name@ + ","@) + place
        }),
        block_report(info, block) == glyph_head(info)
            + "drawn by wezterm because custom_block_glyphs=true: "@ + block,
        glyph_head(info) == right_aligned(decimal(info.cluster as nat), 2) + " "@ + left_aligned(
            info.text@,
            4,
        ) + " "@ + left_aligned(escaped(info.text@), 12) + " "@,
{
    let measures = "x_adv="@ + left_aligned(info.x_advance@, 2) + " cells="@ + left_aligned(
        decimal(info.num_cells as nat),
        2,
    ) + " glyph="@;
    let place = left_aligned(decimal(info.glyph_pos as nat), 4) + " "@ + info.lua_name@ + "\n"@
        + left_aligned(Seq::empty(), 38) + info.diagnostic@;
    let bare = GlyphInfo { glyph_name: None, ..info };
    let named = GlyphInfo { glyph_name: Some(name), ..info };
    assert(glyph_head(bare) == glyph_head(info) && glyph_head(named) == glyph_head(info));
    assert(font_glyph_report(bare) =~= glyph_head(info) + measures + place);
    assert(font_glyph_report(named) =~= glyph_head(info) + measures + (name@ + ","@) + place);
}

} // verus!
