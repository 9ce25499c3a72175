//! Text building blocks: exact string construction over `Seq<char>` views.

use vstd::prelude::*;

verus! {

/// `String::push` appends one character at the end of the string.
pub assume_specification[ String::push ](s: &mut String, c: char)
    ensures
        final(s)@ == old(s)@.push(c),
;

/// `String::push_str` appends the characters of `t`, in order, at the end of the string.
pub assume_specification[ String::push_str ](s: &mut String, t: &str)
    ensures
        final(s)@ == old(s)@ + t@,
;

/// The parts with `sep` between neighbours.
pub open spec fn join_all(parts: Seq<Seq<char>>, sep: Seq<char>) -> Seq<char>
    decreases parts.len(),
{
    if parts.len() == 0 {
        Seq::empty()
    } else if parts.len() == 1 {
        parts[0]
    } else {
        join_all(parts.drop_last(), sep) + sep + parts.last()
    }
}

/// The views of a sequence of strings.
pub open spec fn views(parts: Seq<String>) -> Seq<Seq<char>> {
    parts.map_values(|s: String| s@)
}

/// Joins `parts` with `sep` between neighbours.
pub fn join(parts: &Vec<String>, sep: &str) -> (r: String)
    ensures
        r@ == join_all(views(parts@), sep@),
{
    let mut out = String::new();
    let mut i: usize = 0;
    while i < parts.len()
        invariant
            i <= parts.len(),
            out@ == join_all(views(parts@).take(i as int), sep@),
        decreases parts.len() - i,
    {
        let ghost before = views(parts@).take(i as int);
        let ghost after = views(parts@).take(i + 1);
        if i > 0 {
            out.push_str(sep);
        }
        out.push_str(parts[i].as_str());
        proof {
            assert(after.drop_last() =~= before);
            assert(after.last() == parts@[i as int]@);
        }
        i = i + 1;
    }
    assert(views(parts@).take(i as int) =~= views(parts@));
    out
}

/// The numeral of a digit below sixteen; digits above nine are lower-case letters.
pub open spec fn numeral(d: nat) -> char {
    if d < 10 {
        (48 + d) as char
    } else {
        (87 + d) as char
    }
}

/// `n` written in base `base`, without leading zeros.
pub open spec fn in_base(n: nat, base: nat) -> Seq<char>
    decreases n,
{
    if base < 2 || n < base {
        seq![numeral(n)]
    } else {
        proof {
            assert(n / base < n) by (nonlinear_arith)
                requires
                    n >= base,
                    base >= 2,
            ;
        }
        in_base(n / base, base).push(numeral(n % base))
    }
}

/// `n` in decimal.
pub open spec fn decimal(n: nat) -> Seq<char> {
    in_base(n, 10)
}

/// Appends `n` in base `base`.
pub fn push_in_base(out: &mut String, n: u64, base: u64)
    requires
        2 <= base <= 16,
    ensures
        final(out)@ == old(out)@ + in_base(n as nat, base as nat),
    decreases n,
{
    if n >= base {
        assert(0 < n / base < n) by (nonlinear_arith)
            requires
                n >= base,
                base >= 2,
        ;
        push_in_base(out, n / base, base);
    }
    let d: u8 = (n % base) as u8;
    let c: char = if d < 10 {
        (48 + d) as char
    } else {
        (87 + d) as char
    };
    out.push(c);
    proof {
        if n < base {
            vstd::arithmetic::div_mod::lemma_small_mod(n as nat, base as nat);
        }
    }
}

/// Appends `n` in decimal.
pub fn push_decimal(out: &mut String, n: u64)
    ensures
        final(out)@ == old(out)@ + decimal(n as nat),
{
    push_in_base(out, n, 10);
}

/// The characters with the Unicode `White_Space` property.
pub open spec fn is_white_space(c: char) -> bool {
    ||| '\u{9}' <= c <= '\u{d}'
    ||| c == ' '
    ||| c == '\u{85}'
    ||| c == '\u{a0}'
    ||| c == '\u{1680}'
    ||| '\u{2000}' <= c <= '\u{200a}'
    ||| c == '\u{2028}'
    ||| c == '\u{2029}'
    ||| c == '\u{202f}'
    ||| c == '\u{205f}'
    ||| c == '\u{3000}'
}

/// `char::is_whitespace` decides the Unicode `White_Space` property.
pub assume_specification[ char::is_whitespace ](c: char) -> (r: bool)
    ensures
        r == is_white_space(c),
;

/// `s` without the longest run of white space at its end.
pub open spec fn trimmed_end(s: Seq<char>) -> Seq<char>
    decreases s.len(),
{
    if s.len() > 0 && is_white_space(s.last()) {
        trimmed_end(s.drop_last())
    } else {
        s
    }
}

/// `s` without the longest run of `c` at its end.
pub open spec fn without_trailing(s: Seq<char>, c: char) -> Seq<char>
    decreases s.len(),
{
    if s.len() > 0 && s.last() == c {
        without_trailing(s.drop_last(), c)
    } else {
        s
    }
}

/// The characters of `s`.
pub fn chars_of(s: &str) -> (r: Vec<char>)
    ensures
        r@ == s@,
{
    let mut out: Vec<char> = Vec::new();
    for c in it: s.chars()
        invariant
            out@ == it.seq().take(it.index() as int),
    {
        out.push(c);
    }
    out
}

/// The first `n` characters as a string.
pub fn string_of(chars: &Vec<char>, n: usize) -> (r: String)
    requires
        n <= chars.len(),
    ensures
        r@ == chars@.take(n as int),
{
    let mut out = String::new();
    let mut i: usize = 0;
    while i < n
        invariant
            i <= n <= chars.len(),
            out@ == chars@.take(i as int),
        decreases n - i,
    {
        out.push(chars[i]);
        i = i + 1;
        assert(chars@.take(i as int) =~= chars@.take(i - 1).push(chars@[i - 1]));
    }
    out
}

/// `s` without the longest run of white space at its end.
pub fn trim_end(s: &str) -> (r: String)
    ensures
        r@ == trimmed_end(s@),
{
    let chars = chars_of(s);
    let mut n: usize = chars.len();
    assert(chars@.take(n as int) =~= s@);
    while n > 0 && chars[n - 1].is_whitespace()
        invariant
            n <= chars.len(),
            trimmed_end(chars@.take(n as int)) == trimmed_end(s@),
        ensures
            n <= chars.len(),
            trimmed_end(chars@.take(n as int)) == trimmed_end(s@),
            n > 0 ==> !is_white_space(chars@[n - 1]),
        decreases n,
    {
        assert(chars@.take(n as int).drop_last() =~= chars@.take(n - 1));
        n = n - 1;
    }
    string_of(&chars, n)
}

/// `s` without the longest run of `c` at its end.
pub fn trim_end_matches(s: &str, c: char) -> (r: String)
    ensures
        r@ == without_trailing(s@, c),
{
    let chars = chars_of(s);
    let mut n: usize = chars.len();
    assert(chars@.take(n as int) =~= s@);
    while n > 0 && chars[n - 1] == c
        invariant
            n <= chars.len(),
            without_trailing(chars@.take(n as int), c) == without_trailing(s@, c),
        ensures
            n <= chars.len(),
            without_trailing(chars@.take(n as int), c) == without_trailing(s@, c),
            n > 0 ==> chars@[n - 1] != c,
        decreases n,
    {
        assert(chars@.take(n as int).drop_last() =~= chars@.take(n - 1));
        n = n - 1;
    }
    string_of(&chars, n)
}

/// The pieces of `s` between the separators `sep`; there is always at least one.
pub open spec fn pieces(s: Seq<char>, sep: char) -> Seq<Seq<char>>
    decreases s.len(),
{
    if s.len() == 0 {
        seq![Seq::empty()]
    } else {
        let before = pieces(s.drop_last(), sep);
        if s.last() == sep {
            before.push(Seq::empty())
        } else {
            before.drop_last().push(before.last().push(s.last()))
        }
    }
}

/// Whether `c` does not occur in `s`.
pub open spec fn lacks(s: Seq<char>, c: char) -> bool {
    forall|i: int| 0 <= i < s.len() ==> #[trigger] s[i] != c
}

/// A text without separators behind a separator is a piece of its own.
pub proof fn lemma_pieces_last(before: Seq<char>, sep: char, piece: Seq<char>)
    requires
        lacks(piece, sep),
    ensures
        pieces(before.push(sep) + piece, sep) == pieces(before, sep).push(piece),
    decreases piece.len(),
{
    let whole = before.push(sep) + piece;
    if piece.len() == 0 {
        assert(whole =~= before.push(sep));
        assert(whole.drop_last() =~= before);
        assert(piece =~= Seq::empty());
    } else {
        let shorter = piece.drop_last();
        assert forall|i: int| 0 <= i < shorter.len() implies #[trigger] shorter[i] != sep by {
            assert(piece[i] != sep);
        }
        lemma_pieces_last(before, sep, shorter);
        assert(whole.drop_last() =~= before.push(sep) + piece.drop_last());
        assert(whole.last() == piece[piece.len() - 1]);
        assert(piece.drop_last().push(piece.last()) =~= piece);
        assert(pieces(whole, sep) =~= pieces(before, sep).push(piece));
    }
}

/// A text without separators is one piece.
pub proof fn lemma_one_piece(s: Seq<char>, sep: char)
    requires
        lacks(s, sep),
    ensures
        pieces(s, sep) == seq![s],
    decreases s.len(),
{
    if s.len() == 0 {
        assert(s =~= Seq::empty());
    } else {
        assert forall|i: int| 0 <= i < s.drop_last().len() implies #[trigger] s.drop_last()[i]
            != sep by {
            assert(s[i] != sep);
        }
        lemma_one_piece(s.drop_last(), sep);
        assert(s[s.len() - 1] != sep);
        assert(s.drop_last().push(s.last()) =~= s);
        assert(pieces(s, sep) =~= seq![s]);
    }
}

/// `n` copies of `c`.
pub open spec fn repeated(c: char, n: int) -> Seq<char> {
    Seq::new(
        if n < 0 {
            0
        } else {
            n as nat
        },
        |i: int| c,
    )
}

/// `s` filled up with spaces on the right to `width` characters.
pub open spec fn left_aligned(s: Seq<char>, width: int) -> Seq<char> {
    s + repeated(' ', width - s.len())
}

/// `s` filled up with spaces on the left to `width` characters.
pub open spec fn right_aligned(s: Seq<char>, width: int) -> Seq<char> {
    repeated(' ', width - s.len()) + s
}

/// Appends the spaces that a text of `len` characters lacks to be `width` wide.
fn push_fill(out: &mut String, len: usize, width: usize)
    ensures
        final(out)@ == old(out)@ + repeated(' ', width - len),
{
    let mut i: usize = len;
    assert(out@ =~= out@ + repeated(' ', 0));
    while i < width
        invariant
            len <= i,
            i <= width || i == len,
            out@ == old(out)@ + repeated(' ', i - len),
        decreases width - i,
    {
        out.push(' ');
        i = i + 1;
        assert(repeated(' ', i - len) =~= repeated(' ', i - 1 - len).push(' '));
    }
    if len > width {
        assert(repeated(' ', width - len) =~= repeated(' ', 0));
    }
}

/// Appends `s`, filled up with spaces on the right to `width` characters.
pub fn push_left_aligned(out: &mut String, s: &str, width: usize)
    ensures
        final(out)@ == old(out)@ + left_aligned(s@, width as int),
{
    out.push_str(s);
    let len: usize = s.unicode_len();
    push_fill(out, len, width);
}

/// Appends `s`, filled up with spaces on the left to `width` characters.
pub fn push_right_aligned(out: &mut String, s: &str, width: usize)
    ensures
        final(out)@ == old(out)@ + right_aligned(s@, width as int),
{
    let len: usize = s.unicode_len();
    push_fill(out, len, width);
    out.push_str(s);
}

/// `c` as a `\u{..}` escape.
pub open spec fn escaped_char(c: char) -> Seq<char> {
    seq!['\\', 'u', '{'] + in_base((c as u32) as nat, 16) + seq!['}']
}

/// Every character of `s` as a `\u{..}` escape.
pub open spec fn escaped(s: Seq<char>) -> Seq<char>
    decreases s.len(),
{
    if s.len() == 0 {
        Seq::empty()
    } else {
        escaped(s.drop_last()) + escaped_char(s.last())
    }
}

/// Every character of `s` as a `\u{..}` escape.
pub fn escape_unicode(s: &str) -> (r: String)
    ensures
        r@ == escaped(s@),
{
    let mut out = String::new();
    let chars = chars_of(s);
    let mut i: usize = 0;
    while i < chars.len()
        invariant
            i <= chars.len(),
            out@ == escaped(chars@.take(i as int)),
        decreases chars.len() - i,
    {
        let c: char = chars[i];
        let ghost before = out@;
        out.push('\\');
        out.push('u');
        out.push('{');
        let code: u32 = c as u32;
        push_in_base(&mut out, code as u64, 16);
        out.push('}');
        i = i + 1;
        assert(chars@.take(i as int).drop_last() =~= chars@.take(i - 1));
        assert(out@ =~= before + escaped_char(c));
    }
    assert(chars@.take(i as int) =~= chars@);
    out
}

/// Trimming keeps the text up to its last character that is no white space, and drops nothing
/// but white space.
pub proof fn law_trimming_drops_white_space_at_the_end(s: Seq<char>)
    ensures
        trimmed_end(s).len() <= s.len(),
        trimmed_end(s) == s.take(trimmed_end(s).len() as int),
        forall|i: int| trimmed_end(s).len() <= i < s.len() ==> is_white_space(#[trigger] s[i]),
        trimmed_end(s).len() > 0 ==> !is_white_space(trimmed_end(s).last()),
    decreases s.len(),
{
    if s.len() > 0 && is_white_space(s.last()) {
        let rest = s.drop_last();
        law_trimming_drops_white_space_at_the_end(rest);
        assert(rest.take(trimmed_end(rest).len() as int) =~= s.take(
            trimmed_end(rest).len() as int,
        ));
        assert forall|i: int| trimmed_end(s).len() <= i < s.len() implies is_white_space(
            #[trigger] s[i],
        ) by {
            if i < rest.len() {
                assert(is_white_space(rest[i]));
            }
        }
    } else {
        assert(s.take(s.len() as int) =~= s);
    }
}

/// Dropping a character at the end keeps the text up to the last one that differs from it, and
/// drops nothing else.
pub proof fn law_only_the_named_character_is_dropped(s: Seq<char>, c: char)
    ensures
        without_trailing(s, c).len() <= s.len(),
        without_trailing(s, c) == s.take(without_trailing(s, c).len() as int),
        forall|i: int| without_trailing(s, c).len() <= i < s.len() ==> #[trigger] s[i] == c,
        without_trailing(s, c).len() > 0 ==> without_trailing(s, c).last() != c,
    decreases s.len(),
{
    if s.len() > 0 && s.last() == c {
        let rest = s.drop_last();
        law_only_the_named_character_is_dropped(rest, c);
        assert(rest.take(without_trailing(rest, c).len() as int) =~= s.take(
            without_trailing(rest, c).len() as int,
        ));
        assert forall|i: int| without_trailing(s, c).len() <= i < s.len() implies #[trigger] s[i]
            == c by {
            if i < rest.len() {
                assert(rest[i] == c);
            }
        }
    } else {
        assert(s.take(s.len() as int) =~= s);
    }
}

/// Cutting a text at a separator and joining the pieces with it gives the text back, and no
/// piece holds a separator.
pub proof fn law_pieces_join_to_the_text(s: Seq<char>, sep: char)
    ensures
        pieces(s, sep).len() > 0,
        join_all(pieces(s, sep), seq![sep]) == s,
        forall|i: int| 0 <= i < pieces(s, sep).len() ==> lacks(#[trigger] pieces(s, sep)[i], sep),
    decreases s.len(),
{
    if s.len() == 0 {
        assert(join_all(pieces(s, sep), seq![sep]) =~= s);
    } else {
        let rest = s.drop_last();
        law_pieces_join_to_the_text(rest, sep);
        let before = pieces(rest, sep);
        let after = pieces(s, sep);
        assert(rest.push(s.last()) =~= s);
        if s.last() == sep {
            assert(after.drop_last() =~= before);
            assert(join_all(after, seq![sep]) =~= s);
        } else {
            assert(after.drop_last() =~= before.drop_last());
            assert(after.last() == before.last().push(s.last()));
            assert(lacks(before[before.len() - 1], sep));
            if before.len() == 1 {
                assert(join_all(after, seq![sep]) =~= s);
            } else {
                assert(join_all(after, seq![sep]) =~= join_all(before, seq![sep]).push(s.last()));
            }
            assert forall|i: int| 0 <= i < after.len() implies lacks(#[trigger] after[i], sep) by {
                if i < after.len() - 1 {
                    assert(after[i] == before[i]);
                }
            }
        }
    }
}

/// Joining texts and cutting the result at the separator gives the texts back, empty ones
/// included, as long as none holds the separator.
pub proof fn law_joined_texts_are_the_pieces(parts: Seq<Seq<char>>, sep: char)
    requires
        parts.len() > 0,
        forall|i: int| 0 <= i < parts.len() ==> lacks(#[trigger] parts[i], sep),
    ensures
        pieces(join_all(parts, seq![sep]), sep) == parts,
    decreases parts.len(),
{
    assert(lacks(parts[parts.len() - 1], sep));
    if parts.len() == 1 {
        lemma_one_piece(parts[0], sep);
        assert(parts =~= seq![parts[0]]);
    } else {
        let rest = parts.drop_last();
        assert forall|i: int| 0 <= i < rest.len() implies lacks(#[trigger] rest[i], sep) by {
            assert(rest[i] == parts[i]);
        }
        law_joined_texts_are_the_pieces(rest, sep);
        lemma_pieces_last(join_all(rest, seq![sep]), sep, parts.last());
        assert(join_all(rest, seq![sep]).push(sep) + parts.last() =~= join_all(parts, seq![sep]));
        assert(rest.push(parts.last()) =~= parts);
    }
}

/// Joining appends each text behind the separator, whatever the texts are.
pub proof fn law_joining_appends(parts: Seq<Seq<char>>, part: Seq<char>, sep: Seq<char>)
    ensures
        join_all(seq![part], sep) == part,
        parts.len() > 0 ==> join_all(parts.push(part), sep) == join_all(parts, sep) + sep + part,
{
    assert(parts.push(part).drop_last() =~= parts);
}

/// The value of a numeral: `0` to `9`, then `a` on.
pub open spec fn numeral_value(c: char) -> int {
    if '0' <= c <= '9' {
        c as u32 - '0' as u32
    } else {
        c as u32 - 'a' as u32 + 10
    }
}

/// The number that a run of numerals stands for in base `base`.
pub open spec fn written_value(s: Seq<char>, base: int) -> int
    decreases s.len(),
{
    if s.len() == 0 {
        0
    } else {
        written_value(s.drop_last(), base) * base + numeral_value(s.last())
    }
}

/// A number is written with numerals of the base, reads as the number again, and has no
/// zero in front unless it is zero.
pub proof fn law_written_number_reads_back(n: nat, base: nat)
    requires
        2 <= base <= 16,
    ensures
        in_base(n, base).len() > 0,
        written_value(in_base(n, base), base as int) == n,
        n > 0 ==> in_base(n, base)[0] != '0',
        n == 0 ==> in_base(n, base) == seq!['0'],
        forall|i: int|
            0 <= i < in_base(n, base).len() ==> 0 <= numeral_value(#[trigger] in_base(n, base)[i])
                < base,
    decreases n,
{
    let text = in_base(n, base);
    if n < base {
        assert(text =~= seq![numeral(n)]);
        assert(text.drop_last() =~= Seq::empty());
        assert(written_value(Seq::empty(), base as int) == 0);
        assert(numeral_value(numeral(n)) == n);
    } else {
        let q = n / base;
        let r = n % base;
        assert(0 < q < n && q * base + r == n && r < base) by (nonlinear_arith)
            requires
                n >= base,
                base >= 2,
                q == n / base,
                r == n % base,
        ;
        law_written_number_reads_back(q, base);
        assert(text.drop_last() =~= in_base(q, base));
        assert(numeral_value(numeral(r)) == r);
        assert forall|i: int| 0 <= i < text.len() implies 0 <= numeral_value(#[trigger] text[i])
            < base by {
            if i < text.len() - 1 {
                assert(text[i] == in_base(q, base)[i]);
            }
        }
        assert(text[0] == in_base(q, base)[0]);
    }
}

/// Aligning keeps the text whole, on the side it is aligned to, and adds just the spaces that
/// it lacks.
pub proof fn law_aligning_adds_spaces_only(s: Seq<char>, width: nat)
    ensures
        left_aligned(s, width as int).len() == if s.len() < width {
            width
        } else {
            s.len()
        },
        right_aligned(s, width as int).len() == left_aligned(s, width as int).len(),
        left_aligned(s, width as int).take(s.len() as int) == s,
        right_aligned(s, width as int).skip(right_aligned(s, width as int).len() - s.len()) == s,
        forall|i: int|
            s.len() <= i < left_aligned(s, width as int).len() ==> #[trigger] left_aligned(
                s,
                width as int,
            )[i] == ' ',
        forall|i: int|
            0 <= i < right_aligned(s, width as int).len() - s.len() ==> #[trigger] right_aligned(
                s,
                width as int,
            )[i] == ' ',
{
    assert(left_aligned(s, width as int).take(s.len() as int) =~= s);
    assert(right_aligned(s, width as int).skip(right_aligned(s, width as int).len() - s.len())
        =~= s);
}

/// Escaping works character by character, in order, and leaves none out: each becomes its
/// number in hexadecimal between `\\u{` and `}`.
pub proof fn law_escaping_goes_by_character(a: Seq<char>, b: Seq<char>, c: char)
    ensures
        escaped(a + b) == escaped(a) + escaped(b),
        escaped(seq![c]) == seq!['\\', 'u', '{'] + in_base((c as u32) as nat, 16) + seq!['}'],
    decreases b.len(),
{
    assert(seq![c].drop_last() =~= Seq::empty());
    assert(escaped(Seq::empty()) =~= Seq::empty());
    assert(escaped(seq![c]) =~= seq!['\\', 'u', '{'] + in_base((c as u32) as nat, 16) + seq!['}']);
    if b.len() == 0 {
        assert(a + b =~= a);
        assert(escaped(a + b) =~= escaped(a) + escaped(b));
    } else {
        law_escaping_goes_by_character(a, b.drop_last(), c);
        assert((a + b).drop_last() =~= a + b.drop_last());
        assert(escaped(a + b) =~= escaped(a) + escaped(b));
    }
}

/// Blanks, tabs and line breaks are white space, and so is every other character with that
/// property in Unicode, up to the ideographic space; printable ASCII characters are not, nor is
/// anything above.
pub proof fn law_printable_characters_are_no_white_space(c: char)
    ensures
        is_white_space(' ') && is_white_space('\t') && is_white_space('\n') && is_white_space('\r'),
        is_white_space('\u{a0}') && is_white_space('\u{3000}'),
        '!' <= c <= '~' ==> !is_white_space(c),
        c > '\u{3000}' ==> !is_white_space(c),
{
}

/// The views of a list of strings are their characters, one by one.
pub proof fn law_views_go_string_by_string(parts: Seq<String>, i: int)
    ensures
        views(parts).len() == parts.len(),
        0 <= i < parts.len() ==> views(parts)[i] == parts[i]@,
{
}

} // verus!
