use vstd::prelude::*;
use colored::Colorize;
use crate::text::{
    chars_of, find_after, first_match, is_first_match, lemma_first_match_is,
    lemma_first_match_occurs, occurs_at, push_chars, slice_chars, starts_with, string_of,
};

verus! {

broadcast use vstd::string::group_string_axioms;

/// The `[tag]...[/tag]` styles of the markup, in the order `render` applies them.
#[derive(Clone, Copy, Debug, PartialEq, Eq, Structural)]
pub enum MarkupStyle {
    Bold,
    Dim,
    Green,
    Red,
    Yellow,
    Cyan,
    Blue,
}

impl MarkupStyle {
    /// The tag's name inside the brackets.
    pub open spec fn tag_name(self) -> Seq<char> {
        match self {
            MarkupStyle::Bold => seq!['b', 'o', 'l', 'd'],
            MarkupStyle::Dim => seq!['d', 'i', 'm'],
            MarkupStyle::Green => seq!['g', 'r', 'e', 'e', 'n'],
            MarkupStyle::Red => seq!['r', 'e', 'd'],
            MarkupStyle::Yellow => seq!['y', 'e', 'l', 'l', 'o', 'w'],
            MarkupStyle::Cyan => seq!['c', 'y', 'a', 'n'],
            MarkupStyle::Blue => seq!['b', 'l', 'u', 'e'],
        }
    }

    /// The SGR parameter of the style (`1` bold, `2` dim, `3x` foreground colours).
    pub open spec fn sgr_code(self) -> Seq<char> {
        match self {
            MarkupStyle::Bold => seq!['1'],
            MarkupStyle::Dim => seq!['2'],
            MarkupStyle::Green => seq!['3', '2'],
            MarkupStyle::Red => seq!['3', '1'],
            MarkupStyle::Yellow => seq!['3', '3'],
            MarkupStyle::Cyan => seq!['3', '6'],
            MarkupStyle::Blue => seq!['3', '4'],
        }
    }

    /// `[name]`.
    pub open spec fn open_tag(self) -> Seq<char> {
        seq!['['] + self.tag_name() + seq![']']
    }

    /// `[/name]`.
    pub open spec fn close_tag(self) -> Seq<char> {
        seq!['[', '/'] + self.tag_name() + seq![']']
    }

    fn tag_name_exec(&self) -> (r: Vec<char>)
        ensures
            r@ == self.tag_name(),
    {
        match self {
            MarkupStyle::Bold => vec!['b', 'o', 'l', 'd'],
            MarkupStyle::Dim => vec!['d', 'i', 'm'],
            MarkupStyle::Green => vec!['g', 'r', 'e', 'e', 'n'],
            MarkupStyle::Red => vec!['r', 'e', 'd'],
            MarkupStyle::Yellow => vec!['y', 'e', 'l', 'l', 'o', 'w'],
            MarkupStyle::Cyan => vec!['c', 'y', 'a', 'n'],
            MarkupStyle::Blue => vec!['b', 'l', 'u', 'e'],
        }
    }

    fn open_tag_exec(&self) -> (r: Vec<char>)
        ensures
            r@ == self.open_tag(),
    {
        let name = self.tag_name_exec();
        let mut r = vec!['['];
        push_chars(&mut r, name.as_slice());
        r.push(']');
        r
    }

    fn close_tag_exec(&self) -> (r: Vec<char>)
        ensures
            r@ == self.close_tag(),
    {
        let name = self.tag_name_exec();
        let mut r = vec!['[', '/'];
        push_chars(&mut r, name.as_slice());
        r.push(']');
        r
    }
}

/// The SGR reset `ESC [ 0 m`.
pub open spec fn reset_sequence() -> Seq<char> {
    seq!['\x1b', '[', '0', 'm']
}

/// The SGR sequence `ESC [ code m`.
pub open spec fn style_prefix(code: Seq<char>) -> Seq<char> {
    seq!['\x1b', '['] + code + seq!['m']
}

/// `s` with `prefix` inserted after each reset sequence in it, so that text coloured before
/// keeps the outer style after its own reset.
pub open spec fn reprefix_after_resets(s: Seq<char>, prefix: Seq<char>) -> Seq<char>
    decreases s.len(),
{
    if s.len() == 0 {
        s
    } else if starts_with(s, reset_sequence()) {
        reset_sequence() + prefix + reprefix_after_resets(s.skip(4), prefix)
    } else {
        seq![s[0]] + reprefix_after_resets(s.drop_first(), prefix)
    }
}

/// `s` in the style with SGR parameter `code`, as the terminal receives it.
pub open spec fn styled(s: Seq<char>, code: Seq<char>) -> Seq<char> {
    style_prefix(code) + reprefix_after_resets(s, style_prefix(code)) + reset_sequence()
}

/// What painting `s` in a style can give: the styled text where colours are enabled, `s` itself
/// where they are not.
pub open spec fn colored_outcome(s: Seq<char>, code: Seq<char>, out: Seq<char>) -> bool {
    out == s || out == styled(s, code)
}

/// `colored::Colorize::bold`, displayed with `to_string`. `ColoredString`'s `Display` writes the
/// text unchanged when colours are off; otherwise the SGR sequence of the style, the text with
/// that sequence repeated after each reset inside it, and a reset. Whether colours are on depends
/// on the environment and the terminal, so the contract states both outcomes and not which one
/// comes.
#[verifier::external_body]
fn paint_bold(s: &str) -> (r: String)
    ensures
        colored_outcome(s@, MarkupStyle::Bold.sgr_code(), r@),
{
    s.bold().to_string()
}

/// `colored::Colorize::dimmed`, displayed (either outcome, as for `paint_bold`).
#[verifier::external_body]
fn paint_dimmed(s: &str) -> (r: String)
    ensures
        colored_outcome(s@, MarkupStyle::Dim.sgr_code(), r@),
{
    s.dimmed().to_string()
}

/// `colored::Colorize::green`, displayed (either outcome, as for `paint_bold`).
#[verifier::external_body]
fn paint_green(s: &str) -> (r: String)
    ensures
        colored_outcome(s@, MarkupStyle::Green.sgr_code(), r@),
{
    s.green().to_string()
}

/// `colored::Colorize::red`, displayed (either outcome, as for `paint_bold`).
#[verifier::external_body]
fn paint_red(s: &str) -> (r: String)
    ensures
        colored_outcome(s@, MarkupStyle::Red.sgr_code(), r@),
{
    s.red().to_string()
}

/// `colored::Colorize::yellow`, displayed (either outcome, as for `paint_bold`).
#[verifier::external_body]
fn paint_yellow(s: &str) -> (r: String)
    ensures
        colored_outcome(s@, MarkupStyle::Yellow.sgr_code(), r@),
{
    s.yellow().to_string()
}

/// `colored::Colorize::cyan`, displayed (either outcome, as for `paint_bold`).
#[verifier::external_body]
fn paint_cyan(s: &str) -> (r: String)
    ensures
        colored_outcome(s@, MarkupStyle::Cyan.sgr_code(), r@),
{
    s.cyan().to_string()
}

/// `colored::Colorize::blue`, displayed (either outcome, as for `paint_bold`).
#[verifier::external_body]
fn paint_blue(s: &str) -> (r: String)
    ensures
        colored_outcome(s@, MarkupStyle::Blue.sgr_code(), r@),
{
    s.blue().to_string()
}

/// Paints `s` in `style`.
pub fn paint(s: &str, style: MarkupStyle) -> (r: String)
    ensures
        colored_outcome(s@, style.sgr_code(), r@),
{
    match style {
        MarkupStyle::Bold => paint_bold(s),
        MarkupStyle::Dim => paint_dimmed(s),
        MarkupStyle::Green => paint_green(s),
        MarkupStyle::Red => paint_red(s),
        MarkupStyle::Yellow => paint_yellow(s),
        MarkupStyle::Cyan => paint_cyan(s),
        MarkupStyle::Blue => paint_blue(s),
    }
}

/// `out` is `input` with each `[tag]...[/tag]` of `style` replaced by its painted content, scanning
/// from the left; an opening tag with no closing tag after it stays as it is.
pub open spec fn tag_applied(input: Seq<char>, style: MarkupStyle, out: Seq<char>) -> bool
    decreases input.len(),
{
    let open = style.open_tag();
    let close = style.close_tag();
    match first_match(input, open) {
        None => out == input,
        Some(start) => {
            let after = input.skip(start + open.len());
            &&& start <= out.len()
            &&& out.take(start) == input.take(start)
            &&& match first_match(after, close) {
                Some(end) => {
                    let seg = after.take(end);
                    let next = after.skip(end + close.len());
                    let rest = out.skip(start);
                    let painted = styled(seg, style.sgr_code());
                    ||| (starts_with(rest, seg) && tag_applied(next, style, rest.skip(seg.len() as int)))
                    ||| (starts_with(rest, painted) && tag_applied(
                        next,
                        style,
                        rest.skip(painted.len() as int),
                    ))
                },
                None => starts_with(out.skip(start), open) && tag_applied(
                    after,
                    style,
                    out.skip(start + open.len()),
                ),
            }
        },
    }
}

proof fn lemma_tag_done(input: Seq<char>, style: MarkupStyle)
    requires
        first_match(input, style.open_tag()) is None,
    ensures
        tag_applied(input, style, input),
{
}

proof fn lemma_tag_closed(
    input: Seq<char>,
    style: MarkupStyle,
    start: int,
    end: int,
    piece: Seq<char>,
    o: Seq<char>,
)
    requires
        first_match(input, style.open_tag()) == Some(start),
        first_match(input.skip(start + style.open_tag().len()), style.close_tag()) == Some(end),
        colored_outcome(
            input.skip(start + style.open_tag().len()).take(end),
            style.sgr_code(),
            piece,
        ),
        tag_applied(
            input.skip(start + style.open_tag().len()).skip(end + style.close_tag().len()),
            style,
            o,
        ),
    ensures
        tag_applied(input, style, input.take(start) + piece + o),
{
    lemma_first_match_occurs(input, style.open_tag());
    let out = input.take(start) + piece + o;
    let seg = input.skip(start + style.open_tag().len()).take(end);
    assert(out.take(start) =~= input.take(start));
    assert(out.skip(start) =~= piece + o);
    assert((piece + o).subrange(0, piece.len() as int) =~= piece);
    assert((piece + o).skip(piece.len() as int) =~= o);
}

proof fn lemma_tag_unclosed(input: Seq<char>, style: MarkupStyle, start: int, o: Seq<char>)
    requires
        first_match(input, style.open_tag()) == Some(start),
        first_match(input.skip(start + style.open_tag().len()), style.close_tag()) is None,
        tag_applied(input.skip(start + style.open_tag().len()), style, o),
    ensures
        tag_applied(input, style, input.take(start) + style.open_tag() + o),
{
    lemma_first_match_occurs(input, style.open_tag());
    let open = style.open_tag();
    let out = input.take(start) + open + o;
    assert(out.take(start) =~= input.take(start));
    assert(out.skip(start) =~= open + o);
    assert((open + o).subrange(0, open.len() as int) =~= open);
    assert(out.skip(start + open.len()) =~= o);
}

/// Replaces each `[tag]...[/tag]` of `style` in `input` by its painted content.
pub fn apply_tag(input: &[char], style: MarkupStyle) -> (out: Vec<char>)
    ensures
        tag_applied(input@, style, out@),
{
    let open = style.open_tag_exec();
    let close = style.close_tag_exec();
    let n = input.len();
    let mut out: Vec<char> = Vec::new();
    let mut pos: usize = 0;
    assert(input@.skip(0) =~= input@);
    assert forall|o: Seq<char>| tag_applied(input@.skip(0), style, o) implies tag_applied(
        input@,
        style,
        out@ + o,
    ) by {
        assert(out@ + o =~= o);
    }
    loop
        invariant
            n == input@.len(),
            pos <= input@.len(),
            open@ == style.open_tag(),
            close@ == style.close_tag(),
            forall|o: Seq<char>|
                tag_applied(input@.skip(pos as int), style, o) ==> #[trigger] tag_applied(
                    input@,
                    style,
                    out@ + o,
                ),
        decreases input@.len() - pos,
    {
        let ghost rest = input@.skip(pos as int);
        match find_after(input, open.as_slice(), pos) {
            None => {
                let tail = slice_chars(input, pos, input.len());
                proof {
                    lemma_tag_done(rest, style);
                    assert(tail@ =~= rest);
                }
                push_chars(&mut out, tail.as_slice());
                return out;
            },
            Some(srel) => {
                proof {
                    lemma_first_match_occurs(rest, open@);
                }
                let start = pos + srel;
                let a = start + open.len();
                let ghost after = rest.skip(srel + open@.len());
                assert(after =~= input@.skip(a as int));
                let pre = slice_chars(input, pos, start);
                assert(pre@ =~= rest.take(srel as int));
                match find_after(input, close.as_slice(), a) {
                    Some(erel) => {
                        proof {
                            lemma_first_match_occurs(after, close@);
                        }
                        let e = a + erel;
                        let seg = slice_chars(input, a, e);
                        assert(seg@ =~= after.take(erel as int));
                        let seg_text = string_of(seg.as_slice());
                        let painted = paint(seg_text.as_str(), style);
                        let piece = chars_of(painted.as_str());
                        let ghost old_out = out@;
                        push_chars(&mut out, pre.as_slice());
                        push_chars(&mut out, piece.as_slice());
                        let next_pos = e + close.len();
                        proof {
                            let next = after.skip(erel + close@.len());
                            assert(next =~= input@.skip(next_pos as int));
                            assert forall|o: Seq<char>|
                                tag_applied(input@.skip(next_pos as int), style, o) implies #[trigger] tag_applied(
                                input@,
                                style,
                                out@ + o,
                            ) by {
                                lemma_tag_closed(rest, style, srel as int, erel as int, piece@, o);
                                assert(old_out + (rest.take(srel as int) + piece@ + o) =~= out@
                                    + o);
                            }
                        }
                        pos = next_pos;
                    },
                    None => {
                        let ghost old_out = out@;
                        push_chars(&mut out, pre.as_slice());
                        push_chars(&mut out, open.as_slice());
                        proof {
                            assert forall|o: Seq<char>|
                                tag_applied(input@.skip(a as int), style, o) implies #[trigger] tag_applied(
                                input@,
                                style,
                                out@ + o,
                            ) by {
                                lemma_tag_unclosed(rest, style, srel as int, o);
                                assert(old_out + (rest.take(srel as int) + open@ + o) =~= out@
                                    + o);
                            }
                        }
                        pos = a;
                    },
                }
            },
        }
    }
}

/// The style of pass `k` of `render`: bold, dim, green, red, yellow, cyan, then blue.
pub open spec fn pass_style(k: int) -> MarkupStyle {
    if k == 0 {
        MarkupStyle::Bold
    } else if k == 1 {
        MarkupStyle::Dim
    } else if k == 2 {
        MarkupStyle::Green
    } else if k == 3 {
        MarkupStyle::Red
    } else if k == 4 {
        MarkupStyle::Yellow
    } else if k == 5 {
        MarkupStyle::Cyan
    } else {
        MarkupStyle::Blue
    }
}

/// Pass `k` turns `stages[k]` into `stages[k + 1]`.
pub open spec fn pass_ok(stages: Seq<Seq<char>>, k: int) -> bool {
    tag_applied(stages[k], pass_style(k), stages[k + 1])
}

/// `stages` holds the text before the first pass and after each of the seven passes.
pub open spec fn render_stages(input: Seq<char>, stages: Seq<Seq<char>>, out: Seq<char>) -> bool {
    &&& stages.len() == 8
    &&& stages[0] == input
    &&& stages[7] == out
    &&& forall|k: int| 0 <= k < 7 ==> #[trigger] pass_ok(stages, k)
}

/// `out` is what `render` can give for `input`: the seven tag passes one after the other.
pub open spec fn rendered(input: Seq<char>, out: Seq<char>) -> bool {
    exists|stages: Seq<Seq<char>>| #[trigger] render_stages(input, stages, out)
}

/// Renders the `[bold]`, `[dim]`, `[green]`, `[red]`, `[yellow]`, `[cyan]` and `[blue]` markup of
/// `input`, in that order.
pub fn render(input: &str) -> (r: String)
    ensures
        rendered(input@, r@),
{
    let c0 = chars_of(input);
    let c1 = apply_tag(c0.as_slice(), MarkupStyle::Bold);
    let c2 = apply_tag(c1.as_slice(), MarkupStyle::Dim);
    let c3 = apply_tag(c2.as_slice(), MarkupStyle::Green);
    let c4 = apply_tag(c3.as_slice(), MarkupStyle::Red);
    let c5 = apply_tag(c4.as_slice(), MarkupStyle::Yellow);
    let c6 = apply_tag(c5.as_slice(), MarkupStyle::Cyan);
    let c7 = apply_tag(c6.as_slice(), MarkupStyle::Blue);
    proof {
        let stages = seq![c0@, c1@, c2@, c3@, c4@, c5@, c6@, c7@];
        assert(pass_ok(stages, 0));
        assert(pass_ok(stages, 1));
        assert(pass_ok(stages, 2));
        assert(pass_ok(stages, 3));
        assert(pass_ok(stages, 4));
        assert(pass_ok(stages, 5));
        assert(pass_ok(stages, 6));
        assert(render_stages(input@, stages, c7@));
    }
    string_of(c7.as_slice())
}

/// What is kept of `s` when escape sequences (an ESC up to and including the next `m`) are
/// dropped; `skipping` says that an escape sequence is open at the start of `s`.
pub open spec fn strip_escapes_from(s: Seq<char>, skipping: bool) -> Seq<char>
    decreases s.len(),
{
    if s.len() == 0 {
        s
    } else if skipping {
        strip_escapes_from(s.drop_first(), s[0] != 'm')
    } else if s[0] == '\x1b' {
        strip_escapes_from(s.drop_first(), true)
    } else {
        seq![s[0]] + strip_escapes_from(s.drop_first(), false)
    }
}

/// `s` without its escape sequences.
pub open spec fn strip_escapes(s: Seq<char>) -> Seq<char> {
    strip_escapes_from(s, false)
}

/// Whether an escape sequence is still open after `s`, when one was open at its start as
/// `skipping` says.
pub open spec fn escape_open_after(s: Seq<char>, skipping: bool) -> bool
    decreases s.len(),
{
    if s.len() == 0 {
        skipping
    } else if skipping {
        escape_open_after(s.drop_first(), s[0] != 'm')
    } else {
        escape_open_after(s.drop_first(), s[0] == '\x1b')
    }
}

/// Drops the escape sequences of `input`.
fn strip_ansi(input: &str) -> (r: String)
    ensures
        r@ == strip_escapes(input@),
{
    let chars = chars_of(input);
    let n = chars.len();
    let mut out: Vec<char> = Vec::new();
    let mut skipping = false;
    let mut i: usize = 0;
    assert(chars@.skip(0) =~= chars@);
    assert(out@ + strip_escapes_from(chars@.skip(0), false) =~= strip_escapes(input@));
    while i < n
        invariant
            n == chars@.len(),
            chars@ == input@,
            i <= n,
            strip_escapes(input@) == out@ + strip_escapes_from(chars@.skip(i as int), skipping),
        decreases n - i,
    {
        let c = chars[i];
        let ghost old_out = out@;
        assert(chars@.skip(i as int)[0] == c);
        assert(chars@.skip(i as int).drop_first() =~= chars@.skip(i + 1));
        if skipping {
            skipping = c != 'm';
        } else if c == '\x1b' {
            skipping = true;
        } else {
            out.push(c);
            assert(old_out + (seq![c] + strip_escapes_from(chars@.skip(i + 1), false)) =~= out@
                + strip_escapes_from(chars@.skip(i + 1), false));
        }
        i = i + 1;
    }
    assert(chars@.skip(n as int).len() == 0);
    assert(out@ + strip_escapes_from(chars@.skip(n as int), skipping) =~= out@);
    string_of(out.as_slice())
}

/// `out` is a plain-text rendering of `input`: its markup rendered and the escape sequences
/// dropped.
pub open spec fn plain_rendering(input: Seq<char>, out: Seq<char>) -> bool {
    exists|r: Seq<char>| #[trigger] rendered(input, r) && out == strip_escapes(r)
}

/// Renders the markup of `input` and drops the escape sequences, for display as plain text.
pub fn to_plain(input: &str) -> (r: String)
    ensures
        plain_rendering(input@, r@),
        !r@.contains('\x1b'),
{
    let rendered_text = render(input);
    let r = strip_ansi(rendered_text.as_str());
    proof {
        lemma_strip_leaves_no_escape(rendered_text@, false);
    }
    r
}

proof fn lemma_no_bracket_no_tag(input: Seq<char>, style: MarkupStyle, out: Seq<char>)
    requires
        !input.contains('['),
        tag_applied(input, style, out),
    ensures
        out == input,
{
    lemma_first_match_occurs(input, style.open_tag());
    if first_match(input, style.open_tag()) is Some {
        let i = first_match(input, style.open_tag())->0;
        assert(is_first_match(input, style.open_tag(), i));
        assert(input.subrange(i, i + style.open_tag().len())[0] == style.open_tag()[0]);
        assert(input[i] == '[');
    }
}

/// Text with no `[` and no ESC comes through `to_plain` unchanged: plain log lines are shown as
/// they are.
pub proof fn lemma_plain_text_unchanged(input: Seq<char>, out: Seq<char>)
    requires
        !input.contains('['),
        !input.contains('\x1b'),
        plain_rendering(input, out),
    ensures
        out == input,
{
    let r = choose|r: Seq<char>| rendered(input, r) && out == strip_escapes(r);
    let stages = choose|stages: Seq<Seq<char>>| render_stages(input, stages, r);
    assert(pass_ok(stages, 0));
    lemma_no_bracket_no_tag(stages[0], pass_style(0), stages[1]);
    assert(pass_ok(stages, 1));
    lemma_no_bracket_no_tag(stages[1], pass_style(1), stages[2]);
    assert(pass_ok(stages, 2));
    lemma_no_bracket_no_tag(stages[2], pass_style(2), stages[3]);
    assert(pass_ok(stages, 3));
    lemma_no_bracket_no_tag(stages[3], pass_style(3), stages[4]);
    assert(pass_ok(stages, 4));
    lemma_no_bracket_no_tag(stages[4], pass_style(4), stages[5]);
    assert(pass_ok(stages, 5));
    lemma_no_bracket_no_tag(stages[5], pass_style(5), stages[6]);
    assert(pass_ok(stages, 6));
    lemma_no_bracket_no_tag(stages[6], pass_style(6), stages[7]);
    lemma_strip_plain_text(input);
}

/// A lower-case ASCII letter.
pub open spec fn is_lower_letter(c: char) -> bool {
    'a' <= c && c <= 'z'
}

/// No `[` in `t` is followed by a lower-case letter, so no opening tag can start in `t`.
pub open spec fn no_tag_opening(t: Seq<char>) -> bool {
    forall|i: int| #![trigger t[i]] 0 <= i && i + 1 < t.len() && t[i] == '[' ==> !is_lower_letter(t[i + 1])
}

proof fn lemma_open_tag_shape(st: MarkupStyle)
    ensures
        st.open_tag().len() >= 3,
        st.open_tag()[0] == '[',
        st.open_tag()[st.open_tag().len() - 1] == ']',
        forall|k: int| 1 <= k < st.open_tag().len() - 1 ==> is_lower_letter(#[trigger] st.open_tag()[k]),
        st.close_tag().len() == st.open_tag().len() + 1,
        st.close_tag()[0] == '[',
        st.close_tag()[1] == '/',
        st.tag_name() == st.open_tag().subrange(1, st.open_tag().len() - 1),
{
    let o = st.open_tag();
    let n = st.tag_name();
    assert(o.subrange(1, o.len() - 1) =~= n);
    assert forall|k: int| 1 <= k < o.len() - 1 implies is_lower_letter(#[trigger] o[k]) by {
        assert(o[k] == n[k - 1]);
        match st {
            MarkupStyle::Bold => {},
            MarkupStyle::Dim => {},
            MarkupStyle::Green => {},
            MarkupStyle::Red => {},
            MarkupStyle::Yellow => {},
            MarkupStyle::Cyan => {},
            MarkupStyle::Blue => {},
        }
    }
}

proof fn lemma_tag_name_injective(a: MarkupStyle, b: MarkupStyle)
    requires
        a.tag_name() == b.tag_name(),
    ensures
        a == b,
{
    assert(a.tag_name().len() == b.tag_name().len());
    assert(a.tag_name()[0] == b.tag_name()[0]);
    assert(a.tag_name()[1] == b.tag_name()[1]);
}

/// No opening tag occurs in a text where no `[` is followed by a lower-case letter.
proof fn lemma_no_opening_no_tag(t: Seq<char>, st: MarkupStyle)
    requires
        no_tag_opening(t),
    ensures
        first_match(t, st.open_tag()) is None,
{
    lemma_first_match_occurs(t, st.open_tag());
    lemma_open_tag_shape(st);
    if first_match(t, st.open_tag()) is Some {
        let i = first_match(t, st.open_tag())->0;
        let o = st.open_tag();
        assert(t.subrange(i, i + o.len()) == o);
        assert(t.subrange(i, i + o.len())[0] == t[i]);
        assert(t.subrange(i, i + o.len())[1] == t[i + 1]);
        assert(is_lower_letter(o[1]));
    }
}

/// `[tag]` + `s` + `[/tag]`.
pub open spec fn tagged(st: MarkupStyle, s: Seq<char>) -> Seq<char> {
    st.open_tag() + s + st.close_tag()
}

proof fn lemma_tagged_brackets(st: MarkupStyle, s: Seq<char>, i: int)
    requires
        !s.contains('['),
        0 <= i < tagged(st, s).len(),
        tagged(st, s)[i] == '[',
    ensures
        i == 0 || i == st.open_tag().len() + s.len(),
{
    lemma_open_tag_shape(st);
    let o = st.open_tag();
    let c = st.close_tag();
    let x = tagged(st, s);
    if 0 < i < o.len() {
        assert(x[i] == o[i]);
        if i == o.len() - 1 {
            assert(o[i] == ']');
        } else {
            assert(is_lower_letter(o[i]));
        }
    } else if o.len() <= i < o.len() + s.len() {
        assert(x[i] == s[i - o.len()]);
        assert(s.contains('['));
    } else if i > o.len() + s.len() {
        let k = i - o.len() - s.len();
        assert(x[i] == c[k]);
        assert(c =~= seq!['[', '/'] + st.tag_name() + seq![']']);
        if k == 1 {
            assert(c[1] == '/');
        } else if k == c.len() - 1 {
            assert(c[k] == ']');
        } else {
            assert(c[k] == st.tag_name()[k - 2]);
            assert(o[k - 1] == st.tag_name()[k - 2]);
            assert(is_lower_letter(o[k - 1]));
        }
    }
}

/// In `[tag]s[/tag]` with no `[` in `s`, no other style's opening tag occurs.
proof fn lemma_other_tag_absent(st: MarkupStyle, a: MarkupStyle, s: Seq<char>)
    requires
        !s.contains('['),
        a != st,
    ensures
        first_match(tagged(st, s), a.open_tag()) is None,
{
    lemma_open_tag_shape(st);
    lemma_open_tag_shape(a);
    let x = tagged(st, s);
    let os = st.open_tag();
    let oa = a.open_tag();
    lemma_first_match_occurs(x, oa);
    if first_match(x, oa) is Some {
        let i = first_match(x, oa)->0;
        assert(x.subrange(i, i + oa.len()) == oa);
        assert(x.subrange(i, i + oa.len())[0] == x[i]);
        assert(x.subrange(i, i + oa.len())[1] == x[i + 1]);
        lemma_tagged_brackets(st, s, i);
        if i != 0 {
            assert(x[i + 1] == st.close_tag()[1]);
            assert(is_lower_letter(oa[1]));
        } else if oa.len() <= os.len() {
            let k = oa.len() - 1;
            assert(x.subrange(0, oa.len() as int)[k] == x[k]);
            assert(x[k] == os[k]);
            assert(oa[k] == ']');
            if k < os.len() - 1 {
                assert(is_lower_letter(os[k]));
            }
            assert(oa =~= os) by {
                assert forall|j: int| 0 <= j < oa.len() implies oa[j] == os[j] by {
                    assert(x.subrange(0, oa.len() as int)[j] == x[j]);
                }
            }
            lemma_tag_name_injective(a, st);
        } else {
            let k = os.len() - 1;
            assert(x.subrange(0, oa.len() as int)[k] == x[k]);
            assert(x[k] == os[k]);
            assert(is_lower_letter(oa[k]));
        }
    }
}

/// In `[tag]s[/tag]` with no `[` in `s`, the tag opens at the start and closes right after `s`.
proof fn lemma_own_tag_found(st: MarkupStyle, s: Seq<char>)
    requires
        !s.contains('['),
    ensures
        first_match(tagged(st, s), st.open_tag()) == Some(0int),
        tagged(st, s).skip(st.open_tag().len() as int) == s + st.close_tag(),
        first_match(s + st.close_tag(), st.close_tag()) == Some(s.len() as int),
{
    lemma_open_tag_shape(st);
    let x = tagged(st, s);
    let os = st.open_tag();
    let cs = st.close_tag();
    assert(x.subrange(0, os.len() as int) =~= os);
    lemma_first_match_is(x, os, Some(0int));
    assert(x.skip(os.len() as int) =~= s + cs);
    let after = s + cs;
    assert(after.subrange(s.len() as int, (s.len() + cs.len()) as int) =~= cs);
    assert forall|j: int| 0 <= j < s.len() implies !occurs_at(after, cs, j) by {
        if occurs_at(after, cs, j) {
            assert(after.subrange(j, j + cs.len())[0] == after[j]);
            assert(after[j] == s[j]);
        }
    }
    lemma_first_match_is(after, cs, Some(s.len() as int));
}

proof fn lemma_empty_tag_applied(st: MarkupStyle, o: Seq<char>)
    requires
        tag_applied(Seq::empty(), st, o),
    ensures
        o == Seq::<char>::empty(),
{
    lemma_no_opening_no_tag(Seq::empty(), st);
}

/// The pass of its own style turns `[tag]s[/tag]` into `s`, painted or not.
proof fn lemma_own_pass(st: MarkupStyle, s: Seq<char>, out: Seq<char>)
    requires
        !s.contains('['),
        tag_applied(tagged(st, s), st, out),
    ensures
        out == s || out == styled(s, st.sgr_code()),
{
    lemma_own_tag_found(st, s);
    lemma_open_tag_shape(st);
    let x = tagged(st, s);
    let after = s + st.close_tag();
    assert(after.take(s.len() as int) =~= s);
    assert(after.skip((s.len() + st.close_tag().len()) as int) =~= Seq::<char>::empty());
    assert(out.skip(0) =~= out);
    let p = styled(s, st.sgr_code());
    if starts_with(out, s) && tag_applied(Seq::empty(), st, out.skip(s.len() as int)) {
        lemma_empty_tag_applied(st, out.skip(s.len() as int));
        assert(out =~= out.subrange(0, s.len() as int) + out.skip(s.len() as int));
    } else {
        assert(starts_with(out, p) && tag_applied(Seq::empty(), st, out.skip(p.len() as int)));
        lemma_empty_tag_applied(st, out.skip(p.len() as int));
        assert(out =~= out.subrange(0, p.len() as int) + out.skip(p.len() as int));
    }
}

proof fn lemma_plain_no_opening(s: Seq<char>)
    requires
        !s.contains('['),
    ensures
        no_tag_opening(s),
{
    assert forall|i: int| #![trigger s[i]] 0 <= i && i + 1 < s.len() && s[i] == '[' implies !is_lower_letter(s[i + 1]) by {
        assert(s.contains('['));
    }
}

proof fn lemma_styled_no_opening(s: Seq<char>, st: MarkupStyle)
    requires
        !s.contains('['),
        !s.contains('\x1b'),
    ensures
        no_tag_opening(styled(s, st.sgr_code())),
{
    let p = style_prefix(st.sgr_code());
    let r = reset_sequence();
    lemma_reprefix_plain(s, p);
    let t = styled(s, st.sgr_code());
    assert(t =~= p + s + r);
    assert(st.sgr_code()[0] == '1' || st.sgr_code()[0] == '2' || st.sgr_code()[0] == '3');
    assert forall|i: int| #![trigger t[i]] 0 <= i && i + 1 < t.len() && t[i] == '[' implies !is_lower_letter(t[i + 1]) by {
        if i < p.len() {
            assert(t[i] == p[i]);
            if i == 1 {
                assert(t[2] == st.sgr_code()[0]);
            } else if i == 0 {
                assert(p[0] == '\x1b');
            } else if i < p.len() - 1 {
                assert(p[i] == st.sgr_code()[i - 2]);
                assert(p[i] != '[');
            } else {
                assert(p[i] == 'm');
            }
        } else if i < p.len() + s.len() {
            assert(t[i] == s[i - p.len()]);
            assert(s.contains('['));
        } else {
            let k = i - p.len() - s.len();
            assert(t[i] == r[k]);
            if k == 1 {
                assert(t[i + 1] == r[2]);
            }
        }
    }
}

/// The stage invariant of rendering `[tag]s[/tag]`: unchanged before the tag's own pass, `s`
/// (painted or not) from it on.
pub open spec fn single_tag_stage(st: MarkupStyle, s: Seq<char>, k: int, t: Seq<char>) -> bool {
    if exists|j: int| 0 <= j < k && pass_style(j) == st {
        t == s || t == styled(s, st.sgr_code())
    } else {
        t == tagged(st, s)
    }
}

proof fn lemma_single_tag_stages(st: MarkupStyle, s: Seq<char>, stages: Seq<Seq<char>>, k: int)
    requires
        !s.contains('['),
        !s.contains('\x1b'),
        stages.len() == 8,
        stages[0] == tagged(st, s),
        forall|j: int| 0 <= j < 7 ==> #[trigger] pass_ok(stages, j),
        0 <= k <= 7,
    ensures
        single_tag_stage(st, s, k, stages[k]),
    decreases k,
{
    if k > 0 {
        let j = k - 1;
        lemma_single_tag_stages(st, s, stages, j);
        assert(pass_ok(stages, j));
        if exists|m: int| 0 <= m < j && pass_style(m) == st {
            let m = choose|m: int| 0 <= m < j && pass_style(m) == st;
            assert(0 <= m < k && pass_style(m) == st);
            if stages[j] == s {
                lemma_plain_no_opening(s);
                lemma_no_opening_no_tag(s, pass_style(j));
            } else {
                lemma_styled_no_opening(s, st);
                lemma_no_opening_no_tag(stages[j], pass_style(j));
            }
        } else if pass_style(j) == st {
            lemma_own_pass(st, s, stages[k]);
            assert(0 <= j < k && pass_style(j) == st);
        } else {
            lemma_other_tag_absent(st, pass_style(j), s);
            assert forall|m: int| 0 <= m < k implies pass_style(m) != st by {
                if m < j {
                } else {
                    assert(m == j);
                }
            }
        }
    }
}

/// The plain text of a single tag around content with no `[` and no ESC is the content,
/// whether or not colours are on: the tag is stripped.
pub proof fn lemma_single_tag_plain(st: MarkupStyle, s: Seq<char>, out: Seq<char>)
    requires
        !s.contains('['),
        !s.contains('\x1b'),
        plain_rendering(tagged(st, s), out),
    ensures
        out == s,
{
    let x = tagged(st, s);
    let r = choose|r: Seq<char>| rendered(x, r) && out == strip_escapes(r);
    let stages = choose|stages: Seq<Seq<char>>| render_stages(x, stages, r);
    lemma_single_tag_stages(st, s, stages, 7);
    let idx: int = match st {
        MarkupStyle::Bold => 0,
        MarkupStyle::Dim => 1,
        MarkupStyle::Green => 2,
        MarkupStyle::Red => 3,
        MarkupStyle::Yellow => 4,
        MarkupStyle::Cyan => 5,
        MarkupStyle::Blue => 6,
    };
    assert(pass_style(idx) == st);
    if stages[7] == s {
        lemma_strip_plain_text(s);
    } else {
        lemma_painted_strips_to_content(s, st, stages[7]);
    }
}

/// Stripping escape sequences leaves no ESC character behind.
pub proof fn lemma_strip_leaves_no_escape(s: Seq<char>, skipping: bool)
    ensures
        !strip_escapes_from(s, skipping).contains('\x1b'),
    decreases s.len(),
{
    if s.len() > 0 {
        lemma_strip_leaves_no_escape(s.drop_first(), s[0] != 'm');
        lemma_strip_leaves_no_escape(s.drop_first(), true);
        lemma_strip_leaves_no_escape(s.drop_first(), false);
        let t = strip_escapes_from(s.drop_first(), false);
        if !skipping && s[0] != '\x1b' {
            assert forall|i: int| 0 <= i < (seq![s[0]] + t).len() implies (seq![s[0]] + t)[i]
                != '\x1b' by {
                if i > 0 {
                    assert((seq![s[0]] + t)[i] == t[i - 1]);
                }
            }
        }
    }
}

/// Text with no ESC character is left as it is by stripping.
pub proof fn lemma_strip_plain_text(s: Seq<char>)
    requires
        !s.contains('\x1b'),
    ensures
        strip_escapes(s) == s,
    decreases s.len(),
{
    if s.len() > 0 {
        assert(s[0] != '\x1b');
        assert(!s.drop_first().contains('\x1b')) by {
            if s.drop_first().contains('\x1b') {
                let i = choose|i: int| 0 <= i < s.drop_first().len() && s.drop_first()[i] == '\x1b';
                assert(s[i + 1] == '\x1b');
            }
        }
        lemma_strip_plain_text(s.drop_first());
        assert(seq![s[0]] + s.drop_first() =~= s);
    }
}

/// Stripping a concatenation strips each part in turn, the second from the state the first
/// leaves.
pub proof fn lemma_strip_concat(a: Seq<char>, b: Seq<char>, skipping: bool)
    ensures
        strip_escapes_from(a + b, skipping) == strip_escapes_from(a, skipping) + strip_escapes_from(
            b,
            escape_open_after(a, skipping),
        ),
    decreases a.len(),
{
    if a.len() == 0 {
        assert(a + b =~= b);
        assert(strip_escapes_from(a, skipping) + strip_escapes_from(b, skipping) =~= strip_escapes_from(b, skipping));
    } else {
        assert((a + b)[0] == a[0]);
        assert((a + b).drop_first() =~= a.drop_first() + b);
        let next = if skipping { a[0] != 'm' } else { a[0] == '\x1b' };
        lemma_strip_concat(a.drop_first(), b, next);
        if !skipping && a[0] != '\x1b' {
            assert(seq![a[0]] + (strip_escapes_from(a.drop_first(), false) + strip_escapes_from(b, escape_open_after(a.drop_first(), false)))
                =~= (seq![a[0]] + strip_escapes_from(a.drop_first(), false)) + strip_escapes_from(b, escape_open_after(a.drop_first(), false)));
        }
    }
}

/// A tag's content without escapes reads the same after stripping whether or not it was
/// painted: colours never change the plain text of a tag.
pub proof fn lemma_painted_strips_to_content(s: Seq<char>, style: MarkupStyle, out: Seq<char>)
    requires
        !s.contains('\x1b'),
        colored_outcome(s, style.sgr_code(), out),
    ensures
        strip_escapes(out) == s,
{
    lemma_strip_plain_text(s);
    if out != s {
        let p = style_prefix(style.sgr_code());
        lemma_reprefix_plain(s, p);
        lemma_strip_concat(p, s + reset_sequence(), false);
        lemma_strip_concat(s, reset_sequence(), escape_open_after(p, false));
        lemma_prefix_and_reset(style);
        lemma_open_after_plain(s);
        assert(out =~= p + (s + reset_sequence()));
        assert(Seq::<char>::empty() + (s + Seq::<char>::empty()) =~= s);
    }
}

proof fn lemma_reprefix_plain(s: Seq<char>, p: Seq<char>)
    requires
        !s.contains('\x1b'),
    ensures
        reprefix_after_resets(s, p) == s,
    decreases s.len(),
{
    if s.len() > 0 {
        assert(s[0] != '\x1b');
        assert(!starts_with(s, reset_sequence())) by {
            if starts_with(s, reset_sequence()) {
                assert(s.subrange(0, 4)[0] == s[0]);
            }
        }
        assert(!s.drop_first().contains('\x1b')) by {
            if s.drop_first().contains('\x1b') {
                let i = choose|i: int| 0 <= i < s.drop_first().len() && s.drop_first()[i] == '\x1b';
                assert(s[i + 1] == '\x1b');
            }
        }
        lemma_reprefix_plain(s.drop_first(), p);
        assert(seq![s[0]] + s.drop_first() =~= s);
    }
}

/// An escape sequence that is open runs up to the first `m`; a text whose only `m` is its last
/// character is skipped whole and closes it.
proof fn lemma_skip_to_m(s: Seq<char>)
    requires
        s.len() >= 1,
        s.last() == 'm',
        forall|i: int| 0 <= i < s.len() - 1 ==> s[i] != 'm',
    ensures
        strip_escapes_from(s, true) == Seq::<char>::empty(),
        !escape_open_after(s, true),
    decreases s.len(),
{
    if s.len() > 1 {
        assert(s[0] != 'm');
        let t = s.drop_first();
        assert(t.last() == 'm');
        assert forall|i: int| 0 <= i < t.len() - 1 implies t[i] != 'm' by {
            assert(t[i] == s[i + 1]);
        }
        lemma_skip_to_m(t);
    } else {
        assert(s[0] == 'm');
        assert(s.drop_first().len() == 0);
        assert(strip_escapes_from(s.drop_first(), false) == Seq::<char>::empty());
        assert(!escape_open_after(s.drop_first(), false));
    }
}

/// A whole escape sequence (ESC, then text whose only `m` is its end) strips to nothing and
/// leaves no sequence open.
proof fn lemma_escape_sequence(s: Seq<char>)
    requires
        s.len() >= 2,
        s[0] == '\x1b',
        s.last() == 'm',
        forall|i: int| 1 <= i < s.len() - 1 ==> s[i] != 'm',
    ensures
        strip_escapes_from(s, false) == Seq::<char>::empty(),
        !escape_open_after(s, false),
{
    let t = s.drop_first();
    assert forall|i: int| 0 <= i < t.len() - 1 implies t[i] != 'm' by {
        assert(t[i] == s[i + 1]);
    }
    lemma_skip_to_m(t);
}

proof fn lemma_prefix_and_reset(style: MarkupStyle)
    ensures
        strip_escapes_from(style_prefix(style.sgr_code()), false) == Seq::<char>::empty(),
        !escape_open_after(style_prefix(style.sgr_code()), false),
        strip_escapes_from(reset_sequence(), false) == Seq::<char>::empty(),
{
    let p = style_prefix(style.sgr_code());
    assert forall|i: int| 1 <= i < p.len() - 1 implies p[i] != 'm' by {
        if i >= 2 {
            assert(p[i] == style.sgr_code()[i - 2]);
        }
    }
    lemma_escape_sequence(p);
    let r = reset_sequence();
    assert forall|i: int| 1 <= i < r.len() - 1 implies r[i] != 'm' by {}
    lemma_escape_sequence(r);
}

proof fn lemma_open_after_plain(s: Seq<char>)
    requires
        !s.contains('\x1b'),
    ensures
        !escape_open_after(s, false),
    decreases s.len(),
{
    if s.len() > 0 {
        assert(s[0] != '\x1b');
        assert(!s.drop_first().contains('\x1b')) by {
            if s.drop_first().contains('\x1b') {
                let i = choose|i: int| 0 <= i < s.drop_first().len() && s.drop_first()[i] == '\x1b';
                assert(s[i + 1] == '\x1b');
            }
        }
        lemma_open_after_plain(s.drop_first());
    }
}

} // verus!
