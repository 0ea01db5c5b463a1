use vstd::prelude::*;
use crate::telemetry::DockerContainer;
use crate::text::{
    ascii_lower, ascii_lower_exec, chars_of, decimal, push_chars, push_decimal, push_str, starts_with,
    starts_with_exec, string_of,
};

verus! {

broadcast use vstd::string::group_string_axioms;

/// Colour of a container's name in the Docker panel.
#[derive(Debug, Clone, Copy, PartialEq, Eq, Structural)]
pub enum ContainerColor {
    Yellow,
    Red,
    Blue,
}

/// Restarting containers are yellow, exited or dead ones red, the rest blue (status compared case-insensitively).
pub open spec fn status_color(status: Seq<char>) -> ContainerColor {
    let lower = ascii_lower(status);
    if starts_with(lower, "restarting"@) {
        ContainerColor::Yellow
    } else if starts_with(lower, "exited"@) || starts_with(lower, "dead"@) {
        ContainerColor::Red
    } else {
        ContainerColor::Blue
    }
}

pub fn container_name_color(status: &str) -> (r: ContainerColor)
    ensures
        r == status_color(status@),
{
    let chars = chars_of(status);
    let lower = ascii_lower_exec(chars.as_slice());
    let restarting = chars_of("restarting");
    let exited = chars_of("exited");
    let dead = chars_of("dead");
    if starts_with_exec(lower.as_slice(), restarting.as_slice()) {
        ContainerColor::Yellow
    } else if starts_with_exec(lower.as_slice(), exited.as_slice()) || starts_with_exec(lower.as_slice(), dead.as_slice()) {
        ContainerColor::Red
    } else {
        ContainerColor::Blue
    }
}

pub fn docker_max_scroll(total_lines: usize, viewport_height: usize) -> (r: usize)
    ensures
        r == (if total_lines >= viewport_height { total_lines - viewport_height } else { 0 }),
{
    total_lines.saturating_sub(viewport_height)
}

pub fn clamp_docker_scroll(scroll: usize, max_scroll: usize) -> (r: usize)
    ensures
        r == (if scroll <= max_scroll { scroll } else { max_scroll }),
{
    if scroll <= max_scroll { scroll } else { max_scroll }
}

pub fn docker_scroll_up(scroll: usize) -> (r: usize)
    ensures
        r == (if scroll > 0 { scroll - 1 } else { 0 }),
{
    scroll.saturating_sub(1)
}

pub fn docker_scroll_down(scroll: usize, max_scroll: usize) -> (r: usize)
    requires
        scroll < usize::MAX,
    ensures
        r == (if scroll + 1 <= max_scroll { scroll + 1 } else { max_scroll as int }),
{
    let next = scroll + 1;
    if next <= max_scroll { next } else { max_scroll }
}

/// One line of the Docker panel.
#[derive(Debug, Clone)]
pub enum DockerLine {
    /// Separates two containers.
    Blank,
    /// A container's name, in its status colour.
    Name { text: String, color: ContainerColor },
    /// An indented, padded label and its value.
    Field { label: String, value: String },
}

/// `  ` then `label` padded with spaces to seven characters.
pub open spec fn padded_label(label: Seq<char>) -> Seq<char> {
    "  "@ + label + Seq::new(if label.len() < 7 { (7 - label.len()) as nat } else { 0 }, |i: int| ' ')
}

pub open spec fn is_field(l: DockerLine, label: Seq<char>, value: Seq<char>) -> bool {
    l matches DockerLine::Field { label: lb, value: v } && lb@ == padded_label(label) && v@ == value
}

/// The lines of one container: name, then status, image, created and ports fields.
pub open spec fn container_lines_ok(c: DockerContainer, lines: Seq<DockerLine>) -> bool {
    &&& lines.len() == 5
    &&& lines[0] matches DockerLine::Name { text: t, color: col } && t@ == c.name@ && col == status_color(c.status@)
    &&& is_field(lines[1], "status"@, c.status@)
    &&& is_field(lines[2], "image"@, c.image@)
    &&& is_field(lines[3], "created"@, c.created@)
    &&& is_field(lines[4], "ports"@, c.ports@)
}

/// Container `i` (of those in `cs`) occupies lines `6 * i - 1 ..` with a blank line before all but the first.
pub open spec fn docker_lines_ok(cs: Seq<DockerContainer>, lines: Seq<DockerLine>) -> bool {
    &&& lines.len() == if cs.len() == 0 { 0 } else { 6 * cs.len() - 1 }
    &&& forall|i: int| 0 <= i < cs.len() ==> #[trigger] slot_ok(cs, lines, i)
}

/// Container `i` sits at lines `6 * i ..= 6 * i + 4`, after a blank line unless it is the first.
pub open spec fn slot_ok(cs: Seq<DockerContainer>, lines: Seq<DockerLine>, i: int) -> bool {
    let at = if i == 0 { 0 } else { 6 * i };
    &&& (i > 0 ==> lines[6 * i - 1] is Blank)
    &&& container_lines_ok(cs[i], lines.subrange(at, at + 5))
}

fn field_line(label: &str, value: &str) -> (r: DockerLine)
    ensures
        is_field(r, label@, value@),
{
    let mut v: Vec<char> = Vec::new();
    push_str(&mut v, "  ");
    push_str(&mut v, label);
    let n = label.unicode_len();
    let mut k = n;
    while k < 7
        invariant
            n == label@.len(),
            n <= k <= 7 || (n > 7 && k == n),
            v@ == "  "@ + label@ + Seq::new((k - n) as nat, |i: int| ' '),
        decreases 7 - k,
    {
        v.push(' ');
        k = k + 1;
        assert(v@ =~= "  "@ + label@ + Seq::new((k - n) as nat, |i: int| ' '));
    }
    assert(v@ =~= padded_label(label@));
    DockerLine::Field { label: string_of(&v), value: value.to_string() }
}

pub fn docker_lines(containers: &[DockerContainer]) -> (r: Vec<DockerLine>)
    ensures
        docker_lines_ok(containers@, r@),
{
    let mut lines: Vec<DockerLine> = Vec::new();
    let mut idx: usize = 0;
    while idx < containers.len()
        invariant
            idx <= containers@.len(),
            docker_lines_ok(containers@.take(idx as int), lines@),
        decreases containers.len() - idx,
    {
        let ghost before = lines@;
        let c = &containers[idx];
        if idx > 0 {
            lines.push(DockerLine::Blank);
        }
        let l0 = DockerLine::Name { text: c.name.as_str().to_string(), color: container_name_color(c.status.as_str()) };
        let l1 = field_line("status", c.status.as_str());
        let l2 = field_line("image", c.image.as_str());
        let l3 = field_line("created", c.created.as_str());
        let l4 = field_line("ports", c.ports.as_str());
        let ghost five = seq![l0, l1, l2, l3, l4];
        assert(container_lines_ok(*c, five));
        let ghost mid = lines@;
        lines.push(l0);
        lines.push(l1);
        lines.push(l2);
        lines.push(l3);
        lines.push(l4);
        proof {
            assert(lines@ =~= mid + five);
            assert(lines@.subrange(mid.len() as int, mid.len() as int + 5) =~= five);
            assert(mid.len() == if idx == 0 { 0 } else { 6 * idx });
            assert(lines@.len() == 6 * (idx + 1) - 1);
            let cs = containers@.take(idx + 1);
            let at = if idx == 0 { 0int } else { 6 * idx };
            assert(lines@.subrange(0, before.len() as int) =~= before);
            assert forall|i: int| 0 <= i < cs.len() implies #[trigger] slot_ok(cs, lines@, i) by {
                let a = if i == 0 { 0 } else { 6 * i };
                if i < idx {
                    assert(slot_ok(containers@.take(idx as int), before, i));
                    assert(cs[i] == containers@.take(idx as int)[i]);
                    assert(lines@.subrange(a, a + 5) =~= before.subrange(a, a + 5));
                    if i > 0 {
                        assert(lines@[6 * i - 1] == before[6 * i - 1]);
                    }
                } else {
                    assert(cs[i] == containers@[idx as int]);
                    if i > 0 {
                        assert(lines@[6 * i - 1] == mid[mid.len() - 1]);
                        assert(mid[mid.len() - 1] is Blank);
                    }
                }
            }
            assert(cs.len() == idx + 1);
            assert(docker_lines_ok(cs, lines@));
        }
        idx = idx + 1;
    }
    assert(containers@.take(idx as int) =~= containers@);
    lines
}

/// Clones of the lines of `all` visible in a viewport of `viewport_height` lines scrolled by `scroll`
/// (clamped so the viewport stays full when possible).
pub fn visible_docker_lines<T: Clone>(all_lines: &[T], scroll: usize, viewport_height: usize) -> (r: Vec<T>)
    ensures
        viewport_height == 0 ==> r@.len() == 0,
        viewport_height > 0 ==> {
            let max_scroll = if all_lines@.len() >= viewport_height { all_lines@.len() - viewport_height } else { 0 };
            let start = if scroll <= max_scroll { scroll as int } else { max_scroll };
            let end = if start + viewport_height <= all_lines@.len() { start + viewport_height } else { all_lines@.len() as int };
            &&& r@.len() == end - start
            &&& forall|i: int| 0 <= i < r@.len() ==> cloned::<T>(all_lines@[start + i], #[trigger] r@[i])
        },
{
    if viewport_height == 0 {
        return Vec::new();
    }
    let max_scroll = docker_max_scroll(all_lines.len(), viewport_height);
    let start = clamp_docker_scroll(scroll, max_scroll);
    let end = if viewport_height <= all_lines.len() - start { start + viewport_height } else { all_lines.len() };
    let mut out: Vec<T> = Vec::new();
    let mut i = start;
    while i < end
        invariant
            start <= i <= end <= all_lines@.len(),
            out@.len() == i - start,
            forall|j: int| 0 <= j < out@.len() ==> cloned::<T>(all_lines@[start + j], #[trigger] out@[j]),
        decreases end - i,
    {
        out.push(all_lines[i].clone());
        i = i + 1;
    }
    out
}

/// Title of the Docker panel.
pub open spec fn docker_title_text(count: nat, scroll: nat, max_scroll: nat) -> Seq<char> {
    if count == 0 {
        " Docker · none "@
    } else if max_scroll > 0 {
        " Docker · "@ + decimal(count) + " · ↑/↓ scroll ("@ + decimal(scroll) + "/"@ + decimal(max_scroll) + ") "@
    } else {
        " Docker · "@ + decimal(count) + " "@
    }
}

pub fn docker_title(containers: &[DockerContainer], scroll: usize, max_scroll: usize) -> (r: String)
    ensures
        r@ == docker_title_text(containers@.len(), scroll as nat, max_scroll as nat),
{
    let count = containers.len();
    if count == 0 {
        return " Docker · none ".to_string();
    }
    let mut v: Vec<char> = Vec::new();
    push_str(&mut v, " Docker · ");
    push_decimal(&mut v, count as u64);
    if max_scroll > 0 {
        push_str(&mut v, " · ↑/↓ scroll (");
        push_decimal(&mut v, scroll as u64);
        push_str(&mut v, "/");
        push_decimal(&mut v, max_scroll as u64);
        push_str(&mut v, ") ");
    } else {
        push_str(&mut v, " ");
    }
    assert(v@ =~= docker_title_text(count as nat, scroll as nat, max_scroll as nat));
    string_of(&v)
}

} // verus!
