//! Listing fonts: which text is asked about, and what is printed.

use crate::command::LsFontsCommand;
use crate::text::{chars_of, decimal, pieces, push_decimal, views};
use unicode_normalization::UnicodeNormalization;
use vstd::prelude::*;

verus! {

/// Why a text is no hexadecimal number that fits.
#[derive(Debug, Clone, Copy, PartialEq, Eq, Structural)]
pub enum HexError {
    /// There is nothing.
    Empty,
    /// Something that is no digit comes first.
    InvalidDigit,
    /// The digits are too many to fit.
    TooLarge,
}

impl HexError {
    /// What is wrong, in words.
    pub open spec fn words(self) -> Seq<char> {
        match self {
            HexError::Empty => "cannot parse integer from empty string"@,
            HexError::InvalidDigit => "invalid digit found in string"@,
            HexError::TooLarge => "number too large to fit in target type"@,
        }
    }

    /// What is wrong, in words.
    pub fn message(&self) -> (r: &'static str)
        ensures
            r@ == self.words(),
    {
        match self {
            HexError::Empty => "cannot parse integer from empty string",
            HexError::InvalidDigit => "invalid digit found in string",
            HexError::TooLarge => "number too large to fit in target type",
        }
    }
}

/// Why a list of code points was rejected.
pub enum CodepointError {
    /// This field is no hexadecimal number that fits, for this reason.
    NotHex(String, HexError),
    /// This number is no Unicode scalar value.
    NotScalar(u32),
}

/// Why a list of code points was rejected, as a mathematical value.
pub enum CodepointErrorView {
    NotHex(Seq<char>, HexError),
    NotScalar(u32),
}

impl View for CodepointError {
    type V = CodepointErrorView;

    open spec fn view(&self) -> CodepointErrorView {
        match *self {
            CodepointError::NotHex(field, cause) => CodepointErrorView::NotHex(field@, cause),
            CodepointError::NotScalar(value) => CodepointErrorView::NotScalar(value),
        }
    }
}

impl CodepointError {
    /// The complaint, as text.
    pub fn message(&self) -> (r: String)
        ensures
            r@ == match *self {
                CodepointError::NotHex(field, _) => field@ + " is not a hex number"@,
                CodepointError::NotScalar(value) => decimal(value as nat)
                    + " is not a valid unicode codepoint value"@,
            },
    {
        match self {
            CodepointError::NotHex(field, _) => {
                let mut out = field.clone();
                out.push_str(" is not a hex number");
                out
            },
            CodepointError::NotScalar(value) => {
                let mut out = String::new();
                push_decimal(&mut out, *value as u64);
                assert(out@ =~= decimal(*value as nat));
                out.push_str(" is not a valid unicode codepoint value");
                out
            },
        }
    }

    /// What the complaint goes back to, if anything.
    pub fn cause(&self) -> (r: Option<HexError>)
        ensures
            r == match *self {
                CodepointError::NotHex(_, cause) => Some(cause),
                CodepointError::NotScalar(_) => None,
            },
    {
        match self {
            CodepointError::NotHex(_, cause) => Some(*cause),
            CodepointError::NotScalar(_) => None,
        }
    }
}

/// The value of a hexadecimal digit.
pub open spec fn hex_digit(c: char) -> Option<nat> {
    if '0' <= c <= '9' {
        Some((c as u32 - 48) as nat)
    } else if 'a' <= c <= 'f' {
        Some((c as u32 - 87) as nat)
    } else if 'A' <= c <= 'F' {
        Some((c as u32 - 55) as nat)
    } else {
        None
    }
}

/// The number that a run of hexadecimal digits stands for.
pub open spec fn hex_value(s: Seq<char>) -> nat
    decreases s.len(),
{
    if s.len() == 0 {
        0
    } else {
        16 * hex_value(s.drop_last()) + (match hex_digit(s.last()) {
            Some(d) => d,
            None => 0,
        })
    }
}

/// `s` without the plus sign that may stand before a number.
pub open spec fn unsigned(s: Seq<char>) -> Seq<char> {
    if s.len() > 0 && s[0] == '+' {
        s.skip(1)
    } else {
        s
    }
}

/// Where the run of hexadecimal digits that goes through `from` ends.
pub open spec fn hex_run(s: Seq<char>, from: int) -> int
    decreases s.len() - from,
{
    if 0 <= from < s.len() && hex_digit(s[from]) is Some {
        hex_run(s, from + 1)
    } else {
        from
    }
}

/// The 32-bit number that `s` writes in hexadecimal, or what is wrong with it: of a number
/// that is too large and a character that is no digit, the one that comes first.
pub open spec fn hex_number(s: Seq<char>) -> Result<u32, HexError> {
    let digits = unsigned(s);
    let run = hex_run(digits, 0);
    let value = hex_value(digits.take(run));
    if s.len() == 0 {
        Err(HexError::Empty)
    } else if value > u32::MAX {
        Err(HexError::TooLarge)
    } else if digits.len() == 0 || run < digits.len() {
        Err(HexError::InvalidDigit)
    } else {
        Ok(value as u32)
    }
}

proof fn lemma_hex_run_bounds(s: Seq<char>, from: int)
    requires
        0 <= from <= s.len(),
    ensures
        from <= hex_run(s, from) <= s.len(),
    decreases s.len() - from,
{
    if from < s.len() && hex_digit(s[from]) is Some {
        lemma_hex_run_bounds(s, from + 1);
    }
}

proof fn lemma_hex_value_grows(s: Seq<char>, n: int)
    requires
        0 <= n <= s.len(),
    ensures
        hex_value(s.take(n)) <= hex_value(s),
    decreases s.len() - n,
{
    if n == s.len() {
        assert(s.take(n) =~= s);
    } else {
        lemma_hex_value_grows(s, n + 1);
        assert(s.take(n + 1).drop_last() =~= s.take(n));
    }
}

/// The value of a hexadecimal digit.
fn hex_digit_value(c: char) -> (r: Option<u32>)
    ensures
        match hex_digit(c) {
            Some(d) => r is Some && r->0 == d && d < 16,
            None => r is None,
        },
{
    if '0' <= c && c <= '9' {
        Some(c as u32 - 48)
    } else if 'a' <= c && c <= 'f' {
        Some(c as u32 - 87)
    } else if 'A' <= c && c <= 'F' {
        Some(c as u32 - 55)
    } else {
        None
    }
}

/// The 32-bit number that `s` writes in hexadecimal, or what is wrong with it. A plus sign may
/// stand before the digits.
pub fn parse_hex(s: &str) -> (r: Result<u32, HexError>)
    ensures
        r == hex_number(s@),
{
    let chars = chars_of(s);
    if chars.len() == 0 {
        return Err(HexError::Empty);
    }
    let start: usize = if chars[0] == '+' {
        1
    } else {
        0
    };
    let ghost digits = unsigned(s@);
    assert(digits =~= chars@.skip(start as int));
    if chars.len() == start {
        assert(digits.take(0).len() == 0);
        return Err(HexError::InvalidDigit);
    }
    let mut value: u64 = 0;
    let mut i: usize = start;
    while i < chars.len()
        invariant
            start <= i <= chars.len(),
            start < chars.len(),
            chars@ == s@,
            digits == unsigned(s@),
            digits == chars@.skip(start as int),
            value == hex_value(digits.take(i - start)),
            value <= u32::MAX,
            hex_run(digits, 0) == hex_run(digits, i - start),
        decreases chars.len() - i,
    {
        let ghost n = i - start;
        assert(digits[n] == chars@[i as int]);
        assert(digits.take(n + 1).drop_last() =~= digits.take(n));
        match hex_digit_value(chars[i]) {
            None => {
                return Err(HexError::InvalidDigit);
            },
            Some(d) => {
                value = value * 16 + d as u64;
            },
        }
        i = i + 1;
        if value > u32::MAX as u64 {
            proof {
                let run = hex_run(digits, 0);
                lemma_hex_run_bounds(digits, n + 1);
                lemma_hex_value_grows(digits.take(run), n + 1);
                assert(digits.take(run).take(n + 1) =~= digits.take(n + 1));
            }
            return Err(HexError::TooLarge);
        }
    }
    Ok(value as u32)
}

/// `char::from_u32` gives the character of a Unicode scalar value, and nothing for a number
/// that is above the last one or names a surrogate.
pub assume_specification[ char::from_u32 ](value: u32) -> (r: Option<char>)
    ensures
        r is Some <==> vstd::utf8::is_scalar(value),
        r matches Some(c) ==> c as u32 == value,
;

/// The text of the first `n` fields of a list of code points, or what is wrong with the
/// first bad one.
pub open spec fn codepoint_text(fields: Seq<Seq<char>>, n: int) -> Result<
    Seq<char>,
    CodepointErrorView,
>
    decreases n,
{
    if n <= 0 {
        Ok(Seq::empty())
    } else {
        match codepoint_text(fields, n - 1) {
            Err(e) => Err(e),
            Ok(text) => match hex_number(fields[n - 1]) {
                Err(cause) => Err(CodepointErrorView::NotHex(fields[n - 1], cause)),
                Ok(value) => if vstd::utf8::is_scalar(value) {
                    Ok(text.push(value as char))
                } else {
                    Err(CodepointErrorView::NotScalar(value))
                },
            },
        }
    }
}

/// The fields of `s` between commas.
fn split_fields(s: &str) -> (r: Vec<String>)
    ensures
        views(r@) == pieces(s@, ','),
{
    let chars = chars_of(s);
    let mut out: Vec<String> = Vec::new();
    let mut current = String::new();
    let mut i: usize = 0;
    assert(views(out@).push(current@) =~= pieces(chars@.take(0), ','));
    while i < chars.len()
        invariant
            i <= chars.len(),
            views(out@).push(current@) == pieces(chars@.take(i as int), ','),
        decreases chars.len() - i,
    {
        let ghost before = views(out@).push(current@);
        assert(chars@.take(i + 1).drop_last() =~= chars@.take(i as int));
        assert(before.drop_last() =~= views(out@));
        if chars[i] == ',' {
            out.push(current);
            current = String::new();
            assert(views(out@) =~= before);
        } else {
            current.push(chars[i]);
        }
        i = i + 1;
        assert(views(out@).push(current@) =~= pieces(chars@.take(i as int), ','));
    }
    assert(chars@.take(i as int) =~= s@);
    let ghost all = views(out@).push(current@);
    out.push(current);
    assert(views(out@) =~= all);
    out
}

/// The outcome of a list of code points, with strings as their views.
pub open spec fn text_result(r: Result<String, CodepointError>) -> Result<
    Seq<char>,
    CodepointErrorView,
> {
    match r {
        Ok(text) => Ok(text@),
        Err(e) => Err(e@),
    }
}

/// The text that a list of hexadecimal code points, separated by commas, writes.
pub fn parse_codepoints(codepoints: &str) -> (r: Result<String, CodepointError>)
    ensures
        text_result(r) == codepoint_text(
            pieces(codepoints@, ','),
            pieces(codepoints@, ',').len() as int,
        ),
{
    let list = split_fields(codepoints);
    let ghost all = pieces(codepoints@, ',');
    let mut text = String::new();
    let mut i: usize = 0;
    while i < list.len()
        invariant
            i <= list.len(),
            all == pieces(codepoints@, ','),
            views(list@) == all,
            codepoint_text(all, i as int) == Ok::<Seq<char>, CodepointErrorView>(text@),
        decreases list.len() - i,
    {
        assert(views(list@)[i as int] == list@[i as int]@);
        match parse_hex(list[i].as_str()) {
            Err(cause) => {
                proof {
                    lemma_first_error_counts(all, i + 1, all.len() as int);
                }
                return Err(CodepointError::NotHex(list[i].clone(), cause));
            },
            Ok(value) => match char::from_u32(value) {
                None => {
                    proof {
                        lemma_first_error_counts(all, i + 1, all.len() as int);
                    }
                    return Err(CodepointError::NotScalar(value));
                },
                Some(c) => {
                    proof {
                        vstd::utf8::char_u32_cast(c, value);
                    }
                    text.push(c);
                },
            },
        }
        i = i + 1;
    }
    Ok(text)
}

proof fn lemma_first_error_counts(fields: Seq<Seq<char>>, i: int, n: int)
    requires
        i <= n,
        codepoint_text(fields, i) is Err,
    ensures
        codepoint_text(fields, n) == codepoint_text(fields, i),
    decreases n - i,
{
    if i < n {
        lemma_first_error_counts(fields, i, n - 1);
    }
}

/// Unicode's Normalization Form C of a text.
pub uninterp spec fn nfc_form(text: Seq<char>) -> Seq<char>;

/// `UnicodeNormalization::nfc`, collected: the Normalization Form C of a text, which depends
/// on the text alone. What it does to a given text is left unsaid.
#[verifier::external_body]
fn nfc(text: &str) -> (r: String)
    ensures
        r@ == nfc_form(text@),
{
    text.nfc().collect()
}

/// What listing fonts comes to.
pub enum LsFontsPlan {
    /// The configuration is broken: report that and do nothing else.
    ConfigError(String),
    /// Shape this text and show which glyphs make it up.
    Shape(String),
    /// Show the configured fonts, and all that can be found if asked for.
    Report { list_system: bool },
}

/// What listing fonts comes to, as a mathematical value.
pub enum LsFontsPlanView {
    ConfigError(Seq<char>),
    Shape(Seq<char>),
    Report(bool),
}

impl View for LsFontsPlan {
    type V = LsFontsPlanView;

    open spec fn view(&self) -> LsFontsPlanView {
        match *self {
            LsFontsPlan::ConfigError(err) => LsFontsPlanView::ConfigError(err@),
            LsFontsPlan::Shape(text) => LsFontsPlanView::Shape(text@),
            LsFontsPlan::Report { list_system } => LsFontsPlanView::Report(list_system),
        }
    }
}

/// The text that a command asks about: its text, or else its code points.
pub open spec fn asked_text(cmd: LsFontsCommand) -> Option<
    Result<Seq<char>, CodepointErrorView>,
> {
    match (cmd.text, cmd.codepoints) {
        (Some(text), _) => Some(Ok(text@)),
        (None, Some(codepoints)) => Some(
            codepoint_text(pieces(codepoints@, ','), pieces(codepoints@, ',').len() as int),
        ),
        (None, None) => None,
    }
}

/// `text` as the terminal would show it: in Normalization Form C, where that is configured.
pub open spec fn shown_text(text: Seq<char>, normalize: bool) -> Seq<char> {
    if normalize {
        nfc_form(text)
    } else {
        text
    }
}

/// `text` as the terminal would show it: in Normalization Form C, where that is configured.
fn normalized(text: String, normalize: bool) -> (r: String)
    ensures
        r@ == shown_text(text@, normalize),
{
    if normalize {
        nfc(text.as_str())
    } else {
        text
    }
}

/// The outcome of a listing, with strings as their views.
pub open spec fn plan_result(r: Result<LsFontsPlan, CodepointError>) -> Result<
    LsFontsPlanView,
    CodepointErrorView,
> {
    match r {
        Ok(plan) => Ok(plan@),
        Err(e) => Err(e@),
    }
}

/// Decides what listing fonts comes to.
pub fn run_ls_fonts(
    cmd: &LsFontsCommand,
    config_error: &Option<String>,
    normalize_output_to_unicode_nfc: bool,
) -> (r: Result<LsFontsPlan, CodepointError>)
    ensures
        plan_result(r) == (match (*config_error, asked_text(*cmd)) {
            (Some(err), _) => Ok(LsFontsPlanView::ConfigError(err@)),
            (None, None) => Ok(LsFontsPlanView::Report(cmd.list_system)),
            (None, Some(Err(e))) => Err(e),
            (None, Some(Ok(text))) => Ok(
                LsFontsPlanView::Shape(shown_text(text, normalize_output_to_unicode_nfc)),
            ),
        }),
{
    match config_error {
        Some(err) => {
            return Ok(LsFontsPlan::ConfigError(err.clone()));
        },
        None => {},
    }
    let text = match &cmd.text {
        Some(text) => text.clone(),
        None => match &cmd.codepoints {
            Some(codepoints) => match parse_codepoints(codepoints.as_str()) {
                Ok(text) => text,
                Err(e) => {
                    return Err(e);
                },
            },
            None => {
                return Ok(LsFontsPlan::Report { list_system: cmd.list_system });
            },
        },
    };
    Ok(LsFontsPlan::Shape(normalized(text, normalize_output_to_unicode_nfc)))
}

/// How many bytes a character takes in UTF-8.
pub open spec fn utf8_len(c: char) -> nat {
    vstd::utf8::encode_scalar(c as u32).len()
}

/// For every byte of a text, how many bytes the character takes that it belongs to.
pub open spec fn char_lens(text: Seq<char>) -> Seq<usize>
    decreases text.len(),
{
    if text.len() == 0 {
        Seq::empty()
    } else {
        Seq::new(utf8_len(text[0]), |i: int| utf8_len(text[0]) as usize) + char_lens(
            text.drop_first(),
        )
    }
}

/// For every byte of a text, how many bytes the character takes that it belongs to.
pub fn byte_lens(text: &str) -> (r: Vec<usize>)
    ensures
        r@ == char_lens(text@),
{
    let chars = chars_of(text);
    let mut out: Vec<usize> = Vec::new();
    let mut i: usize = 0;
    assert(chars@.skip(0) =~= text@);
    while i < chars.len()
        invariant
            i <= chars.len(),
            out@ + char_lens(chars@.skip(i as int)) == char_lens(text@),
        decreases chars.len() - i,
    {
        let c: char = chars[i];
        let code: u32 = c as u32;
        let len: usize = if code <= 0x7F {
            1
        } else if code <= 0x7FF {
            2
        } else if code <= 0xFFFF {
            3
        } else {
            4
        };
        proof {
            vstd::utf8::char_is_scalar(c);
            assert(len == utf8_len(c));
            assert(chars@.skip(i as int).drop_first() =~= chars@.skip(i + 1));
        }
        let ghost start = out@;
        let mut k: usize = 0;
        while k < len
            invariant
                k <= len,
                out@ == start + Seq::new(k as nat, |j: int| len),
            decreases len - k,
        {
            out.push(len);
            k = k + 1;
            assert(out@ =~= start + Seq::new(k as nat, |j: int| len));
        }
        proof {
            let tail = char_lens(chars@.skip(i + 1));
            assert(char_lens(chars@.skip(i as int)) =~= Seq::new(len as nat, |j: int| len) + tail);
            assert(out@ + tail =~= start + char_lens(chars@.skip(i as int)));
        }
        i = i + 1;
    }
    assert(out@ =~= char_lens(text@)) by {
        assert(chars@.skip(i as int).len() == 0);
        assert(char_lens(chars@.skip(i as int)).len() == 0);
    }
    out
}

/// There is one entry for every byte of the text's UTF-8 encoding, and none is zero.
pub proof fn law_every_byte_has_its_length(text: Seq<char>)
    ensures
        char_lens(text).len() == vstd::utf8::encode_utf8(text).len(),
        forall|i: int| 0 <= i < char_lens(text).len() ==> 1 <= #[trigger] char_lens(text)[i] <= 4,
    decreases text.len(),
{
    if text.len() > 0 {
        law_every_byte_has_its_length(text.drop_first());
        let head = Seq::new(utf8_len(text[0]), |i: int| utf8_len(text[0]) as usize);
        let tail = char_lens(text.drop_first());
        assert(char_lens(text) =~= head + tail);
        assert forall|i: int| 0 <= i < char_lens(text).len() implies 1 <= #[trigger] char_lens(
            text,
        )[i] <= 4 by {
            if i >= head.len() {
                assert(char_lens(text)[i] == tail[i - head.len()]);
            }
        }
    }
}

proof fn lemma_hex_run_push(s: Seq<char>, c: char, from: int)
    requires
        0 <= from <= s.len(),
    ensures
        hex_run(s, from) < s.len() ==> hex_run(s.push(c), from) == hex_run(s, from),
        hex_run(s, from) == s.len() ==> hex_run(s.push(c), from) == if hex_digit(c) is Some {
            s.len() + 1
        } else {
            s.len()
        },
    decreases s.len() - from,
{
    lemma_hex_run_bounds(s, from);
    if from < s.len() {
        assert(s.push(c)[from] == s[from]);
        if hex_digit(s[from]) is Some {
            lemma_hex_run_push(s, c, from + 1);
        }
    } else {
        assert(s.push(c)[from] == c);
        assert(hex_run(s.push(c), from + 1) == from + 1);
    }
}

/// The value of a hexadecimal digit in either case, or a number below zero.
pub open spec fn digit_value(c: char) -> int {
    if '0' <= c <= '9' {
        c as u32 - '0' as u32
    } else if 'a' <= c <= 'f' {
        c as u32 - 'a' as u32 + 10
    } else if 'A' <= c <= 'F' {
        c as u32 - 'A' as u32 + 10
    } else {
        -1
    }
}

/// Reading goes digit by digit: one more digit makes the number sixteen times as large and adds
/// the digit, or makes it too large; one more character that is no digit spoils it; and what
/// is wrong once stays wrong in the same way. A lone plus sign is not a number yet.
pub proof fn law_hex_is_read_digit_by_digit(s: Seq<char>, c: char)
    requires
        s.len() > 0,
        s != seq!['+'],
    ensures
        hex_number(s) matches Ok(value) ==> hex_number(s.push(c)) == if digit_value(c) < 0 {
            Err(HexError::InvalidDigit)
        } else if 16 * value + digit_value(c) > u32::MAX {
            Err(HexError::TooLarge)
        } else {
            Ok((16 * value + digit_value(c)) as u32)
        },
        hex_number(s) is Err ==> hex_number(s.push(c)) == hex_number(s),
{
    let digits = unsigned(s);
    let longer = unsigned(s.push(c));
    assert(longer =~= digits.push(c));
    if digits.len() == 0 {
        assert(s =~= seq!['+']);
    }
    let run = hex_run(digits, 0);
    lemma_hex_run_bounds(digits, 0);
    lemma_hex_run_push(digits, c, 0);
    if run < digits.len() {
        assert(longer.take(run) =~= digits.take(run));
    } else {
        assert(digits.take(run) =~= digits);
        if hex_digit(c) is Some {
            assert(longer.take(run + 1) =~= longer);
            assert(longer.drop_last() =~= digits);
        } else {
            assert(longer.take(run) =~= digits);
        }
    }
}

/// Reading starts with a digit: alone it is its own value, and any other character alone is
/// none. A plus sign in front of digits makes no difference, and nothing is no number.
pub proof fn law_hex_starts_with_a_digit(s: Seq<char>, c: char)
    ensures
        hex_number(Seq::empty()) == Err::<u32, HexError>(HexError::Empty),
        digit_value(c) >= 0 ==> hex_number(seq![c]) == Ok::<u32, HexError>(
            digit_value(c) as u32,
        ),
        digit_value(c) < 0 ==> hex_number(seq![c]) == Err::<u32, HexError>(
            HexError::InvalidDigit,
        ),
        s.len() > 0 && s[0] != '+' ==> hex_number(seq!['+'] + s) == hex_number(s),
{
    let one = seq![c];
    if c == '+' {
        assert(unsigned(one).len() == 0);
        assert(unsigned(one).take(0).len() == 0);
    } else {
        assert(unsigned(one) =~= one);
        lemma_hex_run_bounds(one, 0);
        if hex_digit(c) is Some {
            assert(hex_run(one, 1) == 1);
            assert(one.take(1) =~= one);
            assert(one.drop_last() =~= Seq::empty());
            assert(hex_value(Seq::empty()) == 0);
        } else {
            assert(one.take(0) =~= Seq::empty());
        }
    }
    if s.len() > 0 && s[0] != '+' {
        assert((seq!['+'] + s).skip(1) =~= s);
    }
}

/// The text of a list of code points has one character for each field, in order, whose number
/// the field writes. Where there is none, the complaint is about the first field that is at
/// fault, and says what is wrong with that one.
pub proof fn law_each_field_gives_its_character(fields: Seq<Seq<char>>, n: int)
    requires
        0 <= n <= fields.len(),
    ensures
        codepoint_text(fields, n) matches Ok(text) ==> text.len() == n && forall|i: int|
            0 <= i < n ==> hex_number(#[trigger] fields[i]) == Ok::<u32, HexError>(text[i] as u32),
        codepoint_text(fields, n) matches Err(e) ==> exists|i: int|
            #![trigger fields[i]]
            0 <= i < n && codepoint_text(fields, i) is Ok && (match hex_number(fields[i]) {
                Err(cause) => e == CodepointErrorView::NotHex(fields[i], cause),
                Ok(value) => e == CodepointErrorView::NotScalar(value)
                    && !vstd::utf8::is_scalar(value),
            }),
    decreases n,
{
    if n > 0 {
        law_each_field_gives_its_character(fields, n - 1);
        match codepoint_text(fields, n - 1) {
            Ok(before) => {
                let _ = fields[n - 1];
                if let Ok(value) = hex_number(fields[n - 1]) {
                    if vstd::utf8::is_scalar(value) {
                        let c = value as char;
                        assert(c as u32 == value);
                        let text = before.push(c);
                        assert forall|i: int| 0 <= i < n implies hex_number(#[trigger] fields[i])
                            == Ok::<u32, HexError>(text[i] as u32) by {
                            if i < n - 1 {
                                assert(text[i] == before[i]);
                            }
                        }
                    }
                }
            },
            Err(_) => {},
        }
    }
}

/// A text that was given is what is asked about, whatever code points were given too; without
/// either, nothing is. It is shown as it stands unless it is to be normalized.
pub proof fn law_text_is_preferred_to_code_points(cmd: LsFontsCommand, text: Seq<char>)
    ensures
        cmd.text matches Some(given) ==> asked_text(cmd) == Some(
            Ok::<Seq<char>, CodepointErrorView>(given@),
        ),
        cmd.text is None && cmd.codepoints is None ==> asked_text(cmd) is None,
        cmd.text is None && cmd.codepoints is Some ==> asked_text(cmd) == Some(
            codepoint_text(
                pieces(cmd.codepoints->0@, ','),
                pieces(cmd.codepoints->0@, ',').len() as int,
            ),
        ),
        shown_text(text, false) == text,
        shown_text(text, true) == nfc_form(text),
{
}

/// The lengths go by character: those of a text are those of its parts, and every byte of a
/// character has the number of bytes that the character takes in UTF-8.
pub proof fn law_lengths_go_by_character(a: Seq<char>, b: Seq<char>, c: char)
    ensures
        char_lens(a + b) == char_lens(a) + char_lens(b),
        char_lens(seq![c]).len() == vstd::utf8::encode_scalar(c as u32).len(),
        forall|i: int|
            0 <= i < char_lens(seq![c]).len() ==> #[trigger] char_lens(seq![c])[i]
                == vstd::utf8::encode_scalar(c as u32).len(),
    decreases a.len(),
{
    assert(seq![c].drop_first() =~= Seq::empty());
    assert(char_lens(Seq::<char>::empty()) =~= Seq::empty());
    if a.len() == 0 {
        assert(a + b =~= b);
        assert(char_lens(a + b) =~= char_lens(a) + char_lens(b));
    } else {
        law_lengths_go_by_character(a.drop_first(), b, c);
        assert((a + b).drop_first() =~= a.drop_first() + b);
        assert(char_lens(a + b) =~= char_lens(a) + char_lens(b));
    }
}

/// A broken configuration is all that is reported, whatever was asked for. Otherwise a text that
/// was given is shaped; else the one that the code points write, or what is wrong with them is
/// told; and only without either the fonts are reported.
pub proof fn law_listing_does_what_was_asked_for(
    cmd: LsFontsCommand,
    config_error: Option<String>,
    normalize: bool,
    r: Result<LsFontsPlan, CodepointError>,
)
    requires
        call_ensures(run_ls_fonts, (&cmd, &config_error, normalize), r),
    ensures
        config_error matches Some(err) ==> {
            &&& r matches Ok(LsFontsPlan::ConfigError(told))
            &&& told@ == err@
        },
        config_error is None && cmd.text is Some ==> {
            &&& r matches Ok(LsFontsPlan::Shape(text))
            &&& !normalize ==> text@ == cmd.text->0@
            &&& normalize ==> text@ == nfc_form(cmd.text->0@)
        },
        config_error is None && cmd.text is None && cmd.codepoints is None ==> {
            &&& r matches Ok(LsFontsPlan::Report { list_system })
            &&& list_system == cmd.list_system
        },
        config_error is None && cmd.text is None && cmd.codepoints is Some ==> r is Err || (r
            matches Ok(LsFontsPlan::Shape(_))),
        r is Err ==> config_error is None && cmd.text is None && cmd.codepoints is Some,
{
}

} // verus!
