use nulctl::markup::{paint, render, to_plain, MarkupStyle};

#[test]
fn to_plain_strips_tags() {
    assert_eq!(to_plain("[green]ok[/green]"), "ok");
}

#[test]
fn to_plain_keeps_unclosed_tags_and_text() {
    assert_eq!(to_plain("a [red]b"), "a [red]b");
    assert_eq!(to_plain("[bold]x[/bold] and [cyan]y[/cyan]"), "x and y");
    assert_eq!(to_plain("[unknown]z[/unknown]"), "[unknown]z[/unknown]");
}

#[test]
fn to_plain_drops_escape_sequences() {
    assert_eq!(to_plain("\x1b[31mred\x1b[0m!"), "red!");
}

#[test]
fn render_paints_or_leaves_text() {
    let out = render("[blue]hi[/blue]");
    assert!(out == "hi" || out == "\x1b[34mhi\x1b[0m");
}

#[test]
fn paint_is_plain_or_styled() {
    let out = paint("x", MarkupStyle::Bold);
    assert!(out == "x" || out == "\x1b[1mx\x1b[0m");
    let dim = paint("x", MarkupStyle::Dim);
    assert!(dim == "x" || dim == "\x1b[2mx\x1b[0m");
}

#[test]
fn forced_colours_give_sgr_sequences() {
    colored::control::set_override(true);
    assert_eq!(render("[blue]hi[/blue]"), "\x1b[34mhi\x1b[0m");
    assert_eq!(paint("a\x1b[0mb", MarkupStyle::Bold), "\x1b[1ma\x1b[0m\x1b[1mb\x1b[0m");
    assert_eq!(to_plain("[green]ok[/green] [red]no[/red]"), "ok no");
}

#[test]
fn disabled_colours_leave_text() {
    colored::control::set_override(false);
    assert_eq!(render("[yellow]w[/yellow]"), "w");
    assert_eq!(paint("x", MarkupStyle::Cyan), "x");
}

#[test]
fn plain_text_passes_unchanged() {
    assert_eq!(to_plain("Downloading 42 files (3 MB)"), "Downloading 42 files (3 MB)");
    assert_eq!(to_plain(""), "");
}

#[test]
fn every_style_tag_is_stripped() {
    for tag in ["bold", "dim", "green", "red", "yellow", "cyan", "blue"] {
        assert_eq!(to_plain(&format!("[{tag}]text[/{tag}]")), "text");
    }
}
