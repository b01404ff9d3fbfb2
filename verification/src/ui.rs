//! Terminal presentation: the colored logo and ANSI-escape handling.

use vstd::prelude::*;
use crate::text::{chars_of, decimal, push_char, push_decimal, push_str, views};
use owo_colors::OwoColorize;

verus! {

/// `OwoColorize::cyan` rendered with `Display`: the text between the ANSI
/// codes that select (36) and reset (39) the cyan foreground.
#[verifier::external_body]
fn cyan(s: &str) -> (r: String)
    ensures
        r@ == "\x1b[36m"@ + s@ + "\x1b[39m"@,
{
    format!("{}", s.cyan())
}

/// `OwoColorize::magenta` rendered with `Display`: the text between the
/// ANSI codes that select (35) and reset (39) the magenta foreground.
#[verifier::external_body]
fn magenta(s: &str) -> (r: String)
    ensures
        r@ == "\x1b[35m"@ + s@ + "\x1b[39m"@,
{
    format!("{}", s.magenta())
}

/// `OwoColorize::bold` rendered with `Display`: the text between the ANSI
/// bold code (1) and the full reset (0).
#[verifier::external_body]
fn bold(s: &str) -> (r: String)
    ensures
        r@ == "\x1b[1m"@ + s@ + "\x1b[0m"@,
{
    format!("{}", s.bold())
}

pub open spec fn cyan_spec(s: Seq<char>) -> Seq<char> {
    "\x1b[36m"@ + s + "\x1b[39m"@
}

pub open spec fn magenta_spec(s: Seq<char>) -> Seq<char> {
    "\x1b[35m"@ + s + "\x1b[39m"@
}

pub open spec fn bold_spec(s: Seq<char>) -> Seq<char> {
    "\x1b[1m"@ + s + "\x1b[0m"@
}

pub open spec fn logo_row_1() -> Seq<char> { "███████╗███████╗██████╗ ██████╗ ██╗████████╗"@ }
pub open spec fn logo_row_2() -> Seq<char> { "██╔════╝██╔════╝██╔══██╗██╔══██╗██║╚══██╔══╝"@ }
pub open spec fn logo_row_3() -> Seq<char> { "█████╗  ███████╗██████╔╝██████╔╝██║   ██║   "@ }
pub open spec fn logo_row_4() -> Seq<char> { "██╔══╝  ╚════██║██╔═══╝ ██╔══██╗██║   ██║   "@ }
pub open spec fn logo_row_5() -> Seq<char> { "███████╗███████║██║     ██║  ██║██║   ██║   "@ }

/// The five logo rows, each on its own line indented by two spaces, with
/// the colors of the Esprit banner (cyan and magenta, alternate rows bold).
pub open spec fn logo_spec() -> Seq<char> {
    "\n  "@ + bold_spec(cyan_spec(logo_row_1()))
        + "\n  "@ + cyan_spec(logo_row_2())
        + "\n  "@ + bold_spec(magenta_spec(logo_row_3()))
        + "\n  "@ + magenta_spec(logo_row_4())
        + "\n  "@ + bold_spec(cyan_spec(logo_row_5()))
        + "\n"@
}

/// The Esprit logo as colored text.
pub fn logo() -> (s: String)
    ensures
        s@ == logo_spec(),
{
    let r1 = bold(&cyan("███████╗███████╗██████╗ ██████╗ ██╗████████╗"));
    let r2 = cyan("██╔════╝██╔════╝██╔══██╗██╔══██╗██║╚══██╔══╝");
    let r3 = bold(&magenta("█████╗  ███████╗██████╔╝██████╔╝██║   ██║   "));
    let r4 = magenta("██╔══╝  ╚════██║██╔═══╝ ██╔══██╗██║   ██║   ");
    let r5 = bold(&cyan("███████╗███████║██║     ██║  ██║██║   ██║   "));
    let mut s = String::new();
    push_str(&mut s, "\n  ");
    push_str(&mut s, &r1);
    push_str(&mut s, "\n  ");
    push_str(&mut s, &r2);
    push_str(&mut s, "\n  ");
    push_str(&mut s, &r3);
    push_str(&mut s, "\n  ");
    push_str(&mut s, &r4);
    push_str(&mut s, "\n  ");
    push_str(&mut s, &r5);
    push_str(&mut s, "\n");
    assert(s@ =~= logo_spec());
    s
}

/// The escape character that opens an ANSI control sequence.
pub open spec fn esc() -> char {
    '\x1b'
}

/// `s` with ANSI escape sequences removed: from each escape character up to
/// and including the next `m` nothing is kept. `in_escape` tells whether a
/// sequence is already open.
pub open spec fn strip_from(s: Seq<char>, in_escape: bool) -> Seq<char>
    decreases s.len(),
{
    if s.len() == 0 {
        seq![]
    } else if s[0] == esc() {
        strip_from(s.drop_first(), true)
    } else if in_escape {
        strip_from(s.drop_first(), s[0] != 'm')
    } else {
        seq![s[0]] + strip_from(s.drop_first(), false)
    }
}

pub open spec fn strip_ansi(s: Seq<char>) -> Seq<char> {
    strip_from(s, false)
}

/// `s` without its ANSI escape sequences.
pub fn strip_ansi_escapes(s: &str) -> (out: String)
    ensures
        out@ == strip_ansi(s@),
{
    let cs = chars_of(s);
    let mut out = String::new();
    let mut in_escape = false;
    let mut i: usize = 0;
    assert(cs@.skip(0) =~= cs@);
    assert(out@ + strip_from(cs@, false) =~= strip_from(cs@, false));
    while i < cs.len()
        invariant
            cs@ == s@,
            i <= cs.len(),
            strip_ansi(s@) == out@ + strip_from(cs@.skip(i as int), in_escape),
        decreases cs.len() - i,
    {
        let c = cs[i];
        assert(cs@.skip(i as int).drop_first() =~= cs@.skip(i + 1));
        if c == '\x1b' {
            in_escape = true;
        } else if in_escape {
            if c == 'm' {
                in_escape = false;
            }
        } else {
            let ghost before = out@;
            push_char(&mut out, c);
            assert(before + (seq![c] + strip_from(cs@.skip(i + 1), false)) =~= out@ + strip_from(cs@.skip(i + 1), false));
        }
        i = i + 1;
    }
    assert(cs@.skip(i as int) =~= Seq::<char>::empty());
    assert(out@ + Seq::<char>::empty() =~= out@);
    out
}

/// No escape character survives stripping.
pub proof fn stripped_has_no_escape(s: Seq<char>, in_escape: bool)
    ensures
        !strip_from(s, in_escape).contains(esc()),
    decreases s.len(),
{
    if s.len() > 0 {
        stripped_has_no_escape(s.drop_first(), true);
        stripped_has_no_escape(s.drop_first(), false);
        stripped_has_no_escape(s.drop_first(), s[0] != 'm');
        if !(s[0] == esc()) && !in_escape {
            let rest = strip_from(s.drop_first(), false);
            assert((seq![s[0]] + rest).contains(esc()) ==> (s[0] == esc() || rest.contains(esc()))) by {
                if (seq![s[0]] + rest).contains(esc()) {
                    let k = choose|k: int| 0 <= k < (seq![s[0]] + rest).len() && (seq![s[0]] + rest)[k] == esc();
                    if k > 0 {
                        assert(rest[k - 1] == esc());
                    }
                }
            }
        }
    }
}

/// Text without escape characters is left as it is.
pub proof fn strip_leaves_plain_text(s: Seq<char>)
    requires
        !s.contains(esc()),
    ensures
        strip_from(s, false) == s,
    decreases s.len(),
{
    if s.len() > 0 {
        assert(s[0] != esc()) by {
            assert(s[0] == s[0]);
        }
        assert(!s.drop_first().contains(esc())) by {
            if s.drop_first().contains(esc()) {
                let k = choose|k: int| 0 <= k < s.drop_first().len() && s.drop_first()[k] == esc();
                assert(s[k + 1] == esc());
            }
        }
        strip_leaves_plain_text(s.drop_first());
        assert(seq![s[0]] + s.drop_first() =~= s);
    }
}

/// Stripping twice is the same as stripping once.
pub proof fn strip_is_idempotent(s: Seq<char>)
    ensures
        strip_ansi(strip_ansi(s)) == strip_ansi(s),
{
    stripped_has_no_escape(s, false);
    strip_leaves_plain_text(strip_ansi(s));
}

} // verus!

verus! {

/// `OwoColorize::dimmed` rendered with `Display`: the text between the ANSI
/// dim code (2) and the full reset (0).
#[verifier::external_body]
fn dimmed(s: &str) -> (r: String)
    ensures
        r@ == dimmed_spec(s@),
{
    format!("{}", s.dimmed())
}

/// `OwoColorize::green` rendered with `Display`: codes 32 and 39 around the text.
#[verifier::external_body]
fn green(s: &str) -> (r: String)
    ensures
        r@ == "\x1b[32m"@ + s@ + "\x1b[39m"@,
{
    format!("{}", s.green())
}

/// `OwoColorize::red` rendered with `Display`: codes 31 and 39 around the text.
#[verifier::external_body]
fn red(s: &str) -> (r: String)
    ensures
        r@ == "\x1b[31m"@ + s@ + "\x1b[39m"@,
{
    format!("{}", s.red())
}

/// `OwoColorize::yellow` rendered with `Display`: codes 33 and 39 around the text.
#[verifier::external_body]
fn yellow(s: &str) -> (r: String)
    ensures
        r@ == "\x1b[33m"@ + s@ + "\x1b[39m"@,
{
    format!("{}", s.yellow())
}

/// `OwoColorize::black` rendered with `Display`: codes 30 and 39 around the text.
#[verifier::external_body]
fn black(s: &str) -> (r: String)
    ensures
        r@ == "\x1b[30m"@ + s@ + "\x1b[39m"@,
{
    format!("{}", s.black())
}

/// `OwoColorize::on_cyan` rendered with `Display`: background codes 46 and 49
/// around the text.
#[verifier::external_body]
fn on_cyan(s: &str) -> (r: String)
    ensures
        r@ == "\x1b[46m"@ + s@ + "\x1b[49m"@,
{
    format!("{}", s.on_cyan())
}

/// `OwoColorize::on_green` rendered with `Display`: background codes 42 and
/// 49 around the text.
#[verifier::external_body]
fn on_green(s: &str) -> (r: String)
    ensures
        r@ == "\x1b[42m"@ + s@ + "\x1b[49m"@,
{
    format!("{}", s.on_green())
}

/// `OwoColorize::on_magenta` rendered with `Display`: background codes 45
/// and 49 around the text.
#[verifier::external_body]
fn on_magenta(s: &str) -> (r: String)
    ensures
        r@ == "\x1b[45m"@ + s@ + "\x1b[49m"@,
{
    format!("{}", s.on_magenta())
}

/// `OwoColorize::on_yellow` rendered with `Display`: background codes 43 and
/// 49 around the text.
#[verifier::external_body]
fn on_yellow(s: &str) -> (r: String)
    ensures
        r@ == "\x1b[43m"@ + s@ + "\x1b[49m"@,
{
    format!("{}", s.on_yellow())
}

pub open spec fn dimmed_spec(s: Seq<char>) -> Seq<char> {
    "\x1b[2m"@ + s + "\x1b[0m"@
}

pub open spec fn green_spec(s: Seq<char>) -> Seq<char> {
    "\x1b[32m"@ + s + "\x1b[39m"@
}

pub open spec fn red_spec(s: Seq<char>) -> Seq<char> {
    "\x1b[31m"@ + s + "\x1b[39m"@
}

pub open spec fn yellow_spec(s: Seq<char>) -> Seq<char> {
    "\x1b[33m"@ + s + "\x1b[39m"@
}

/// `n` copies of `c` (`str::repeat` on a one-character string).
pub open spec fn repeated(c: char, n: nat) -> Seq<char> {
    Seq::new(n, |i: int| c)
}

fn push_repeated(s: &mut String, c: char, n: usize)
    ensures
        final(s)@ == old(s)@ + repeated(c, n as nat),
{
    let mut i: usize = 0;
    while i < n
        invariant
            i <= n,
            s@ == old(s)@ + repeated(c, i as nat),
        decreases n - i,
    {
        push_char(s, c);
        assert(repeated(c, (i + 1) as nat) =~= repeated(c, i as nat).push(c));
        i = i + 1;
    }
}

fn repeat_char(c: char, n: usize) -> (r: String)
    ensures
        r@ == repeated(c, n as nat),
{
    let mut r = String::new();
    push_repeated(&mut r, c, n);
    r
}

/// The byte length of a text as `str::len` reports it.
pub open spec fn byte_len(s: Seq<char>) -> usize {
    vstd::utf8::encode_utf8(s).len() as usize
}

/// The room left on a line of `width` columns after `used` bytes and four
/// columns of frame (`width.saturating_sub(used + 4)`).
pub open spec fn room(width: int, used: int) -> nat {
    if used + 4 >= width { 0 } else { (width - used - 4) as nat }
}

fn room_exec(width: usize, used: usize) -> (r: usize)
    requires
        width >= 4,
    ensures
        r == room(width as int, used as int),
{
    if used >= width - 4 { 0 } else { width - 4 - used }
}

/// `s` padded with spaces on the right to at least `width` characters
/// (`format!("{:<width$}", s)`).
pub open spec fn pad_right(s: Seq<char>, width: nat) -> Seq<char> {
    if s.len() >= width { s } else { s + repeated(' ', (width - s.len()) as nat) }
}

fn pad_right_exec(s: &str, width: usize) -> (r: String)
    ensures
        r@ == pad_right(s@, width as nat),
{
    let n = chars_of(s).len();
    let mut r = s.to_string();
    if n < width {
        push_repeated(&mut r, ' ', width - n);
    }
    r
}

/// A status line: an icon, then the message.
pub open spec fn status_line(icon: Seq<char>, msg: Seq<char>) -> Seq<char> {
    "  "@ + icon + " "@ + msg
}

/// The success line: a bold green check mark, then `msg`.
pub fn ok_line(msg: &str) -> (r: String)
    ensures
        r@ == status_line(bold_spec(green_spec("✓"@)), msg@),
{
    let icon = bold(&green("✓"));
    let mut r = String::new();
    push_str(&mut r, "  ");
    push_str(&mut r, icon.as_str());
    push_str(&mut r, " ");
    push_str(&mut r, msg);
    assert(r@ =~= status_line(bold_spec(green_spec("✓"@)), msg@));
    r
}

/// The failure line: a bold red cross, then `msg`.
pub fn fail_line(msg: &str) -> (r: String)
    ensures
        r@ == status_line(bold_spec(red_spec("✗"@)), msg@),
{
    let icon = bold(&red("✗"));
    let mut r = String::new();
    push_str(&mut r, "  ");
    push_str(&mut r, icon.as_str());
    push_str(&mut r, " ");
    push_str(&mut r, msg);
    assert(r@ =~= status_line(bold_spec(red_spec("✗"@)), msg@));
    r
}

/// The warning line: a bold yellow warning sign, then `msg`.
pub fn warn_line(msg: &str) -> (r: String)
    ensures
        r@ == status_line(bold_spec(yellow_spec("⚠"@)), msg@),
{
    let icon = bold(&yellow("⚠"));
    let mut r = String::new();
    push_str(&mut r, "  ");
    push_str(&mut r, icon.as_str());
    push_str(&mut r, " ");
    push_str(&mut r, msg);
    assert(r@ =~= status_line(bold_spec(yellow_spec("⚠"@)), msg@));
    r
}

/// The information line: a bold cyan information sign, then `msg`.
pub fn info_line(msg: &str) -> (r: String)
    ensures
        r@ == status_line(bold_spec(cyan_spec("ℹ"@)), msg@),
{
    let icon = bold(&cyan("ℹ"));
    let mut r = String::new();
    push_str(&mut r, "  ");
    push_str(&mut r, icon.as_str());
    push_str(&mut r, " ");
    push_str(&mut r, msg);
    assert(r@ =~= status_line(bold_spec(cyan_spec("ℹ"@)), msg@));
    r
}

/// A section heading: a blank line, a bold magenta arrow and the bold title.
pub fn section_line(title: &str) -> (r: String)
    ensures
        r@ == "\n  "@ + bold_spec(magenta_spec("▸"@)) + " "@ + bold_spec(title@),
{
    let icon = bold(&magenta("▸"));
    let t = bold(title);
    let mut r = String::new();
    push_str(&mut r, "\n  ");
    push_str(&mut r, icon.as_str());
    push_str(&mut r, " ");
    push_str(&mut r, t.as_str());
    assert(r@ =~= "\n  "@ + bold_spec(magenta_spec("▸"@)) + " "@ + bold_spec(title@));
    r
}

/// A dimmed rule of 56 columns.
pub fn divider_line() -> (r: String)
    ensures
        r@ == "  "@ + dimmed_spec(repeated('─', 56)),
{
    let rule = repeat_char('─', 56);
    let d = dimmed(rule.as_str());
    let mut r = String::new();
    push_str(&mut r, "  ");
    push_str(&mut r, d.as_str());
    assert(r@ =~= "  "@ + dimmed_spec(repeated('─', 56)));
    r
}

/// A key and its value: the key dimmed and padded to 22 characters, the
/// value bold.
pub fn kv_line(key: &str, val: &str) -> (r: String)
    ensures
        r@ == "  "@ + dimmed_spec(pad_right(key@, 22)) + " "@ + bold_spec(val@),
{
    let k = pad_right_exec(key, 22);
    let kd = dimmed(k.as_str());
    let v = bold(val);
    let mut r = String::new();
    push_str(&mut r, "  ");
    push_str(&mut r, kd.as_str());
    push_str(&mut r, " ");
    push_str(&mut r, v.as_str());
    assert(r@ =~= "  "@ + dimmed_spec(pad_right(key@, 22)) + " "@ + bold_spec(val@));
    r
}

/// A key, a dotted leader filling 32 columns (by the key's byte length) and
/// the bold value.
pub fn kv_dot_line(key: &str, val: &str) -> (r: String)
    ensures
        r@ == "  "@ + dimmed_spec(key@) + " "@ + dimmed_spec(repeated('.', room(34, byte_len(key@) as int))) + " "@
            + bold_spec(val@),
{
    let dots = repeat_char('.', room_exec(34, key.len()));
    let kd = dimmed(key);
    let dd = dimmed(dots.as_str());
    let v = bold(val);
    let mut r = String::new();
    push_str(&mut r, "  ");
    push_str(&mut r, kd.as_str());
    push_str(&mut r, " ");
    push_str(&mut r, dd.as_str());
    push_str(&mut r, " ");
    push_str(&mut r, v.as_str());
    assert(r@ =~= "  "@ + dimmed_spec(key@) + " "@ + dimmed_spec(repeated('.', room(34, byte_len(key@) as int))) + " "@
        + bold_spec(val@));
    r
}

/// A numbered step: `[idx/total]` in bold magenta, then the message.
pub fn step_line(idx: usize, total: usize, msg: &str) -> (r: String)
    ensures
        r@ == "  "@ + bold_spec(magenta_spec("["@ + decimal(idx as nat) + "/"@ + decimal(total as nat) + "]"@)) + " "@ + msg@,
{
    let mut counter = "[".to_string();
    push_decimal(&mut counter, idx as u64);
    push_str(&mut counter, "/");
    push_decimal(&mut counter, total as u64);
    push_str(&mut counter, "]");
    let c = bold(&magenta(counter.as_str()));
    let mut r = String::new();
    push_str(&mut r, "  ");
    push_str(&mut r, c.as_str());
    push_str(&mut r, " ");
    push_str(&mut r, msg);
    assert(r@ =~= "  "@ + bold_spec(magenta_spec("["@ + decimal(idx as nat) + "/"@ + decimal(total as nat) + "]"@)) + " "@ + msg@);
    r
}

} // verus!

verus! {

/// The width of a card, in columns.
pub const CARD_WIDTH: usize = 64;

/// The top edge of a card, with its title in bold cyan.
pub open spec fn card_top(title: Seq<char>) -> Seq<char> {
    let t = " "@ + title + " "@;
    "  ╭─"@ + bold_spec(cyan_spec(t)) + "─"@ + dimmed_spec(repeated('─', room(CARD_WIDTH as int, byte_len(t) as int))) + "╮"@
}

/// A line of a card: the text, then spaces up to the right edge (counting
/// the text's bytes without its escape sequences).
pub open spec fn card_row(line: Seq<char>) -> Seq<char> {
    "  │  "@ + line + " "@ + repeated(' ', room(CARD_WIDTH as int, byte_len(strip_ansi(line)) as int)) + "│"@
}

/// The bottom edge of a card.
pub open spec fn card_bottom() -> Seq<char> {
    "  ╰"@ + dimmed_spec(repeated('─', (CARD_WIDTH - 2) as nat)) + "╯"@
}

/// The lines of a titled card around `content`.
pub fn card_lines(title: &str, content: &Vec<String>) -> (v: Vec<String>)
    ensures
        v@.len() == content@.len() + 2,
        v@[0]@ == card_top(title@),
        forall|i: int| 0 <= i < content@.len() ==> (#[trigger] v@[i + 1])@ == card_row(content@[i]@),
        v@[v@.len() - 1]@ == card_bottom(),
{
    let mut v: Vec<String> = Vec::new();
    let mut t = " ".to_string();
    push_str(&mut t, title);
    push_str(&mut t, " ");
    let rule = repeat_char('─', room_exec(CARD_WIDTH, t.as_str().len()));
    let head = bold(&cyan(t.as_str()));
    let rd = dimmed(rule.as_str());
    let mut top = "  ╭─".to_string();
    push_str(&mut top, head.as_str());
    push_str(&mut top, "─");
    push_str(&mut top, rd.as_str());
    push_str(&mut top, "╮");
    assert(top@ =~= card_top(title@));
    v.push(top);
    let mut i: usize = 0;
    while i < content.len()
        invariant
            i <= content.len(),
            v@.len() == i + 1,
            v@[0]@ == card_top(title@),
            forall|j: int| 0 <= j < i ==> (#[trigger] v@[j + 1])@ == card_row(content@[j]@),
        decreases content.len() - i,
    {
        let clean = strip_ansi_escapes(content[i].as_str());
        let pad = repeat_char(' ', room_exec(CARD_WIDTH, clean.as_str().len()));
        let mut row = "  │  ".to_string();
        push_str(&mut row, content[i].as_str());
        push_str(&mut row, " ");
        push_str(&mut row, pad.as_str());
        push_str(&mut row, "│");
        assert(row@ =~= card_row(content@[i as int]@));
        v.push(row);
        i = i + 1;
    }
    let bottom_rule = repeat_char('─', CARD_WIDTH - 2);
    let bd = dimmed(bottom_rule.as_str());
    let mut bottom = "  ╰".to_string();
    push_str(&mut bottom, bd.as_str());
    push_str(&mut bottom, "╯");
    assert(bottom@ =~= card_bottom());
    v.push(bottom);
    v
}

/// The heading of a panel: a bold cyan diamond, the bold title and the
/// dimmed tag in brackets when there is one, under a blank line.
pub open spec fn panel_title(title: Seq<char>, tag: Option<Seq<char>>) -> Seq<char> {
    let tag_text = match tag { Some(t) => " ["@ + t + "]"@, None => seq![] };
    "\n  "@ + bold_spec(cyan_spec("◆"@)) + " "@ + bold_spec(title) + dimmed_spec(tag_text)
}

/// The two lines of a panel header: the title line and a dimmed rule.
pub fn panel_header_lines(title: &str, tag: Option<&str>) -> (v: Vec<String>)
    ensures
        v@.len() == 2,
        v@[0]@ == panel_title(title@, match tag { Some(t) => Some(t@), None => None }),
        v@[1]@ == "  "@ + dimmed_spec(repeated('─', 56)),
{
    let mut tag_text = String::new();
    match tag {
        Some(t) => {
            push_str(&mut tag_text, " [");
            push_str(&mut tag_text, t);
            push_str(&mut tag_text, "]");
        },
        None => {},
    }
    let icon = bold(&cyan("◆"));
    let tb = bold(title);
    let td = dimmed(tag_text.as_str());
    let mut head = "\n  ".to_string();
    push_str(&mut head, icon.as_str());
    push_str(&mut head, " ");
    push_str(&mut head, tb.as_str());
    push_str(&mut head, td.as_str());
    assert(head@ =~= panel_title(title@, match tag { Some(t) => Some(t@), None => None }));
    let mut v: Vec<String> = Vec::new();
    v.push(head);
    v.push(divider_line());
    v
}

/// The first 46 bytes of a summary that is longer, the whole summary
/// otherwise.
pub open spec fn summary_cut(s: Seq<char>) -> Seq<char> {
    if byte_len(s) > 46 {
        vstd::utf8::decode_utf8(vstd::utf8::encode_utf8(s).subrange(0, 46))
    } else {
        s
    }
}

/// The lines of the update notice: what is installed, what is available,
/// the dimmed summary (cut to 46 bytes and padded to 48 characters) when
/// there is one, and the command to run.
pub open spec fn badge_lines(current: Seq<char>, latest: Seq<char>, summary: Option<Seq<char>>) -> Seq<Seq<char>> {
    let head = seq![
        ""@,
        "  ╭────────────────────────────────────────────────────────╮"@,
        "  │  "@ + bold_spec(yellow_spec("⚡ UPDATE AVAILABLE:"@)) + " "@ + dimmed_spec(current) + " → "@
            + bold_spec(cyan_spec(latest)) + "  │"@,
    ];
    let middle = match summary {
        Some(s) => seq!["  │  "@ + dimmed_spec("•"@) + " "@ + dimmed_spec(pad_right(summary_cut(s), 48)) + "│"@],
        None => seq![],
    };
    head + middle + seq![
        "  │  "@ + dimmed_spec("Run:"@) + " "@ + green_spec(bold_spec("esprit update"@)) + "              │"@,
        "  ╰────────────────────────────────────────────────────────╯\n"@,
    ]
}

/// The update notice (see [`badge_lines`]). A summary longer than 46 bytes
/// must be cut on a character boundary.
pub fn update_badge_lines(current: &str, latest: &str, summary: Option<&str>) -> (v: Vec<String>)
    requires
        match summary {
            Some(s) => byte_len(s@) > 46 ==> vstd::utf8::is_char_boundary(vstd::utf8::encode_utf8(s@), 46),
            None => true,
        },
    ensures
        views(v@) == badge_lines(current@, latest@, match summary { Some(s) => Some(s@), None => None }),
{
    let mut v: Vec<String> = Vec::new();
    proof { reveal_strlit(""); }
    v.push(String::new());
    v.push("  ╭────────────────────────────────────────────────────────╮".to_string());
    let title = bold(&yellow("⚡ UPDATE AVAILABLE:"));
    let cur = dimmed(current);
    let lat = bold(&cyan(latest));
    let mut l2 = "  │  ".to_string();
    push_str(&mut l2, title.as_str());
    push_str(&mut l2, " ");
    push_str(&mut l2, cur.as_str());
    push_str(&mut l2, " → ");
    push_str(&mut l2, lat.as_str());
    push_str(&mut l2, "  │");
    v.push(l2);
    let ghost after_head = views(v@);
    assert(after_head.len() == 3);
    assert(after_head[0] == ""@);
    assert(after_head[1] == "  ╭────────────────────────────────────────────────────────╮"@);
    assert(after_head =~= seq![""@, "  ╭────────────────────────────────────────────────────────╮"@, v@[2]@]);
    match summary {
        Some(s) => {
            let cut: &str = if s.len() > 46 {
                let c = s.split_at(46).0;
                proof {
                    vstd::utf8::encode_utf8_decode_utf8(c@);
                }
                c
            } else {
                s
            };
            assert(cut@ == summary_cut(s@));
            let padded = pad_right_exec(cut, 48);
            let bullet = dimmed("•");
            let body = dimmed(padded.as_str());
            let mut l3 = "  │  ".to_string();
            push_str(&mut l3, bullet.as_str());
            push_str(&mut l3, " ");
            push_str(&mut l3, body.as_str());
            push_str(&mut l3, "│");
            let ghost line3 = l3@;
            v.push(l3);
            assert(views(v@) =~= after_head.push(line3));
        },
        None => {},
    }
    let run = dimmed("Run:");
    let cmd = green(&bold("esprit update"));
    let mut l4 = "  │  ".to_string();
    push_str(&mut l4, run.as_str());
    push_str(&mut l4, " ");
    push_str(&mut l4, cmd.as_str());
    push_str(&mut l4, "              │");
    let ghost mid = views(v@);
    let ghost line4 = l4@;
    v.push(l4);
    let last = "  ╰────────────────────────────────────────────────────────╯\n".to_string();
    let ghost line5 = last@;
    v.push(last);
    assert(views(v@) =~= mid.push(line4).push(line5));
    assert(views(v@) =~= badge_lines(current@, latest@, match summary { Some(s) => Some(s@), None => None }));
    v
}

/// The banner under the logo: the version and the three product badges, in
/// black on colored backgrounds, then a dimmed rule and a blank line.
pub open spec fn banner_badges(version: Seq<char>) -> Seq<char> {
    "  "@ + bold_spec("\x1b[46m"@ + "\x1b[30m"@ + " v"@ + version + " "@ + "\x1b[39m"@ + "\x1b[49m"@)
        + " "@ + bold_spec("\x1b[42m"@ + "\x1b[30m"@ + " AIR-GAPPED "@ + "\x1b[39m"@ + "\x1b[49m"@)
        + " "@ + bold_spec("\x1b[45m"@ + "\x1b[30m"@ + " APPLE SILICON METAL "@ + "\x1b[39m"@ + "\x1b[49m"@)
        + " "@ + bold_spec("\x1b[43m"@ + "\x1b[30m"@ + " LOCAL-FIRST "@ + "\x1b[39m"@ + "\x1b[49m"@)
}

/// The banner's lines: the logo, the badges of `version`, and the rule.
pub fn banner_lines(version: &str) -> (v: Vec<String>)
    ensures
        v@.len() == 3,
        v@[0]@ == logo_spec(),
        v@[1]@ == banner_badges(version@),
        v@[2]@ == "  "@ + dimmed_spec(repeated('─', 58)) + "\n"@,
{
    let mut tag = " v".to_string();
    push_str(&mut tag, version);
    push_str(&mut tag, " ");
    let b1 = bold(&on_cyan(&black(tag.as_str())));
    let b2 = bold(&on_green(&black(" AIR-GAPPED ")));
    let b3 = bold(&on_magenta(&black(" APPLE SILICON METAL ")));
    let b4 = bold(&on_yellow(&black(" LOCAL-FIRST ")));
    let mut badges = "  ".to_string();
    push_str(&mut badges, b1.as_str());
    push_str(&mut badges, " ");
    push_str(&mut badges, b2.as_str());
    push_str(&mut badges, " ");
    push_str(&mut badges, b3.as_str());
    push_str(&mut badges, " ");
    push_str(&mut badges, b4.as_str());
    assert(badges@ =~= banner_badges(version@));
    let rule = repeat_char('─', 58);
    let rd = dimmed(rule.as_str());
    let mut last = "  ".to_string();
    push_str(&mut last, rd.as_str());
    push_str(&mut last, "\n");
    assert(last@ =~= "  "@ + dimmed_spec(repeated('─', 58)) + "\n"@);
    let mut v: Vec<String> = Vec::new();
    v.push(logo());
    v.push(badges);
    v.push(last);
    v
}

} // verus!

verus! {

/// How many entries of `present` are true.
pub open spec fn count_true(present: Seq<bool>) -> nat
    decreases present.len(),
{
    if present.len() == 0 {
        0
    } else {
        count_true(present.drop_last()) + if present.last() { 1nat } else { 0nat }
    }
}

/// The dashboard's health panel: installed models (those present), indexed
/// vectors and remembered conversations, one per line.
pub open spec fn dashboard_text(present: Seq<bool>, vectors: u64, conversations: u64) -> Seq<char> {
    "Models Installed: "@ + decimal(count_true(present)) + "\nVectors Indexed: "@ + decimal(vectors as nat)
        + "\nConversations in Memory: "@ + decimal(conversations as nat) + "\n"@
}

/// Exec counterpart of [`dashboard_text`]; `present` tells, per registry
/// model, whether it is installed.
pub fn dashboard_stats(present: &[bool], vectors: u64, conversations: u64) -> (s: String)
    ensures
        s@ == dashboard_text(present@, vectors, conversations),
{
    let mut n: u64 = 0;
    let mut i: usize = 0;
    while i < present.len()
        invariant
            i <= present.len(),
            n == count_true(present@.subrange(0, i as int)),
            n <= i,
        decreases present.len() - i,
    {
        assert(present@.subrange(0, i + 1).drop_last() =~= present@.subrange(0, i as int));
        if present[i] {
            n = n + 1;
        }
        i = i + 1;
    }
    assert(present@.subrange(0, present.len() as int) =~= present@);
    let mut s = "Models Installed: ".to_string();
    push_decimal(&mut s, n);
    push_str(&mut s, "\nVectors Indexed: ");
    push_decimal(&mut s, vectors);
    push_str(&mut s, "\nConversations in Memory: ");
    push_decimal(&mut s, conversations);
    push_str(&mut s, "\n");
    s
}

/// The dashboard closes on the `q` key and on no other.
pub fn quits_dashboard(key: char) -> (b: bool)
    ensures
        b == (key == 'q'),
{
    key == 'q'
}

} // verus!
