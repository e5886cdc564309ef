//! The box-drawn report: a fixed-width panel of labelled fields and a
//! per-filesystem table whose borders are sized to their contents.

use vstd::prelude::*;
use colored::Colorize;
use crate::mounts::FsEntry;
use crate::text::{
    contains_sub, esc_free, lemma_contains_extend_left, lemma_contains_extend_right,
    lemma_contains_self, lemma_contains_trans, lemma_wraps_contains, lemma_wraps_in_context, wraps,
};

verus! {

/// Relies on colored's `Colorize::white` and `ColoredString`'s `Display`:
/// when colouring is disabled the text is written unchanged, otherwise a
/// style prefix and a reset suffix are written around it, and text free
/// of the escape character is never rewritten in between.
#[verifier::external_body]
fn paint_white(s: &str) -> (r: String)
    ensures
        esc_free(s@) ==> wraps(r@, s@),
{
    s.white().to_string()
}

/// Relies on colored's `Colorize::red`, as [`paint_white`] does on `white`.
#[verifier::external_body]
fn paint_red(s: &str) -> (r: String)
    ensures
        esc_free(s@) ==> wraps(r@, s@),
{
    s.red().to_string()
}

/// Relies on colored's `Colorize::yellow`, as [`paint_white`] does on `white`.
#[verifier::external_body]
fn paint_yellow(s: &str) -> (r: String)
    ensures
        esc_free(s@) ==> wraps(r@, s@),
{
    s.yellow().to_string()
}

/// Relies on colored's `Colorize::green`, as [`paint_white`] does on `white`.
#[verifier::external_body]
fn paint_green(s: &str) -> (r: String)
    ensures
        esc_free(s@) ==> wraps(r@, s@),
{
    s.green().to_string()
}

/// Relies on colored's `Colorize::blue`, as [`paint_white`] does on `white`.
#[verifier::external_body]
fn paint_blue(s: &str) -> (r: String)
    ensures
        esc_free(s@) ==> wraps(r@, s@),
{
    s.blue().to_string()
}

/// Relies on colored's `Colorize::cyan`, as [`paint_white`] does on `white`.
#[verifier::external_body]
fn paint_cyan(s: &str) -> (r: String)
    ensures
        esc_free(s@) ==> wraps(r@, s@),
{
    s.cyan().to_string()
}

/// Relies on colored's `Colorize::magenta`, as [`paint_white`] does on `white`.
#[verifier::external_body]
fn paint_magenta(s: &str) -> (r: String)
    ensures
        esc_free(s@) ==> wraps(r@, s@),
{
    s.magenta().to_string()
}

/// Relies on colored's `Colorize::black`, as [`paint_white`] does on `white`.
#[verifier::external_body]
fn paint_black(s: &str) -> (r: String)
    ensures
        esc_free(s@) ==> wraps(r@, s@),
{
    s.black().to_string()
}

/// Relies on colored's `Colorize::bright_black`, as [`paint_white`] does on `white`.
#[verifier::external_body]
fn paint_bright_black(s: &str) -> (r: String)
    ensures
        esc_free(s@) ==> wraps(r@, s@),
{
    s.bright_black().to_string()
}

/// `n` box-drawing dashes.
pub open spec fn rule_of(n: nat) -> Seq<char> {
    Seq::new(n, |i: int| '\u{2500}')
}

/// A horizontal rule of `n` box-drawing dashes.
fn rule(n: usize) -> (r: String)
    ensures
        r@ == rule_of(n as nat),
{
    let mut out = String::new();
    let mut i: usize = 0;
    proof {
        reveal_strlit("─");
        assert(out@ =~= rule_of(0));
    }
    while i < n
        invariant
            i <= n,
            out@ == rule_of(i as nat),
            "─"@.len() == 1 && "─"@[0] == '\u{2500}',
        decreases n - i,
    {
        out.append("─");
        proof {
            assert(out@ =~= rule_of((i + 1) as nat));
        }
        i += 1;
    }
    out
}

/// Join the parts; every part survives as a substring of the whole.
fn concat_all(parts: &Vec<String>) -> (r: String)
    ensures
        forall|j: int| 0 <= j < parts@.len() ==> contains_sub(r@, parts@[j]@),
{
    let mut out = String::new();
    let mut i: usize = 0;
    while i < parts.len()
        invariant
            i <= parts@.len(),
            forall|j: int| 0 <= j < i ==> contains_sub(out@, parts@[j]@),
        decreases parts@.len() - i,
    {
        let ghost o0 = out@;
        out.append(parts[i].as_str());
        proof {
            assert forall|j: int| 0 <= j < i + 1 implies contains_sub(out@, parts@[j]@) by {
                if j < i {
                    lemma_contains_extend_right(o0, parts@[i as int]@, parts@[j]@);
                } else {
                    lemma_contains_self(parts@[i as int]@);
                    lemma_contains_extend_left(o0, parts@[i as int]@, parts@[j]@);
                }
            }
        }
        i += 1;
    }
    out
}

/// Assemble the fixed-layout report panel from the gathered fields.
/// Every field that is free of the terminal escape character appears
/// verbatim in the output; the memory figures, the box borders, the
/// divider and every label cell always do.
pub fn render_report(
    user: &str,
    hostname: &str,
    distro: &str,
    kernel: &str,
    uptime: &str,
    shell: &str,
    editor: &str,
    mem_total: &str,
    mem_used: &str,
) -> (r: String)
    ensures
        esc_free(user@) ==> contains_sub(r@, user@),
        esc_free(hostname@) ==> contains_sub(r@, hostname@),
        esc_free(distro@) ==> contains_sub(r@, distro@),
        esc_free(kernel@) ==> contains_sub(r@, kernel@),
        esc_free(uptime@) ==> contains_sub(r@, uptime@),
        esc_free(shell@) ==> contains_sub(r@, shell@),
        esc_free(editor@) ==> contains_sub(r@, editor@),
        contains_sub(r@, mem_total@),
        contains_sub(r@, mem_used@),
        contains_sub(r@, "\n  \u{256d}\u{2500}\u{2500}\u{2500}\u{2500}\u{2500}\u{2500}\u{2500}\u{2500}\u{2500}\u{2500}\u{2500}\u{256e}\n"@),
        contains_sub(r@, "  user   \u{2502} "@),
        contains_sub(r@, "  hname  \u{2502} "@),
        contains_sub(r@, "  distro \u{2502} "@),
        contains_sub(r@, "  kernel \u{2502} "@),
        contains_sub(r@, "  uptime \u{2502} "@),
        contains_sub(r@, "  shell  \u{2502} "@),
        contains_sub(r@, "  editor \u{2502} "@),
        contains_sub(r@, "  memory \u{2502} "@),
        contains_sub(r@, "  \u{251c}\u{2500}\u{2500}\u{2500}\u{2500}\u{2500}\u{2500}\u{2500}\u{2500}\u{2500}\u{2500}\u{2500}\u{2524}\n  \u{2502} "@),
        contains_sub(r@, "  colors \u{2502} "@),
        contains_sub(r@, "\n  \u{2570}\u{2500}\u{2500}\u{2500}\u{2500}\u{2500}\u{2500}\u{2500}\u{2500}\u{2500}\u{2500}\u{2500}\u{256f}\n"@),
{
    let logo: &str = "   _  ___      ____  ____\n  / |/ (_)_ __/ __ \\/ __/\n /    / /\\ \\ / /_/ /\\ \\\n/_/|_/_//_\\_\\\\____/___/";
    let mut rows: Vec<String> = Vec::new();

    let mut row_logo = paint_cyan(logo);
    let ghost logo_pre = row_logo@;
    row_logo.append("\n  \u{256d}\u{2500}\u{2500}\u{2500}\u{2500}\u{2500}\u{2500}\u{2500}\u{2500}\u{2500}\u{2500}\u{2500}\u{256e}\n");
    proof {
        let top = "\n  \u{256d}\u{2500}\u{2500}\u{2500}\u{2500}\u{2500}\u{2500}\u{2500}\u{2500}\u{2500}\u{2500}\u{2500}\u{256e}\n"@;
        assert(row_logo@ =~= logo_pre + top + Seq::<char>::empty());
        assert(wraps(row_logo@, top));
        lemma_wraps_contains(row_logo@, top);
    }
    let ghost row_logo_v = row_logo@;
    rows.push(row_logo);

    let mut row_user = String::new();
    row_user.append("  \u{2502} ");
    let g0 = paint_white("");
    row_user.append(g0.as_str());
    let ghost lab_user = row_user@;
    row_user.append("  user   \u{2502} ");
    let pv_user = paint_white(user);
    let ghost pre_user = row_user@;
    row_user.append(pv_user.as_str());
    row_user.append("\n");
    proof {
        if esc_free(user@) {
            lemma_wraps_in_context(pre_user, pv_user@, "\n"@, user@);
            lemma_wraps_contains(row_user@, user@);
        }
        assert(row_user@ =~= lab_user + "  user   \u{2502} "@ + (pv_user@ + "\n"@));
        assert(wraps(row_user@, "  user   \u{2502} "@));
        lemma_wraps_contains(row_user@, "  user   \u{2502} "@);
    }
    let ghost row_user_v = row_user@;
    rows.push(row_user);

    let mut row_host = String::new();
    row_host.append("  \u{2502} ");
    let g1 = paint_red("");
    row_host.append(g1.as_str());
    let ghost lab_host = row_host@;
    row_host.append("  hname  \u{2502} ");
    let pv_host = paint_red(hostname);
    let ghost pre_host = row_host@;
    row_host.append(pv_host.as_str());
    row_host.append("\n");
    proof {
        if esc_free(hostname@) {
            lemma_wraps_in_context(pre_host, pv_host@, "\n"@, hostname@);
            lemma_wraps_contains(row_host@, hostname@);
        }
        assert(row_host@ =~= lab_host + "  hname  \u{2502} "@ + (pv_host@ + "\n"@));
        assert(wraps(row_host@, "  hname  \u{2502} "@));
        lemma_wraps_contains(row_host@, "  hname  \u{2502} "@);
    }
    let ghost row_host_v = row_host@;
    rows.push(row_host);

    let mut row_distro = String::new();
    row_distro.append("  \u{2502} ");
    let g2 = paint_yellow("");
    row_distro.append(g2.as_str());
    let ghost lab_distro = row_distro@;
    row_distro.append("  distro \u{2502} ");
    let pv_distro = paint_yellow(distro);
    let ghost pre_distro = row_distro@;
    row_distro.append(pv_distro.as_str());
    row_distro.append("\n");
    proof {
        if esc_free(distro@) {
            lemma_wraps_in_context(pre_distro, pv_distro@, "\n"@, distro@);
            lemma_wraps_contains(row_distro@, distro@);
        }
        assert(row_distro@ =~= lab_distro + "  distro \u{2502} "@ + (pv_distro@ + "\n"@));
        assert(wraps(row_distro@, "  distro \u{2502} "@));
        lemma_wraps_contains(row_distro@, "  distro \u{2502} "@);
    }
    let ghost row_distro_v = row_distro@;
    rows.push(row_distro);

    let mut row_kernel = String::new();
    row_kernel.append("  \u{2502} ");
    let g3 = paint_green("");
    row_kernel.append(g3.as_str());
    let ghost lab_kernel = row_kernel@;
    row_kernel.append("  kernel \u{2502} ");
    let pv_kernel = paint_green(kernel);
    let ghost pre_kernel = row_kernel@;
    row_kernel.append(pv_kernel.as_str());
    row_kernel.append("\n");
    proof {
        if esc_free(kernel@) {
            lemma_wraps_in_context(pre_kernel, pv_kernel@, "\n"@, kernel@);
            lemma_wraps_contains(row_kernel@, kernel@);
        }
        assert(row_kernel@ =~= lab_kernel + "  kernel \u{2502} "@ + (pv_kernel@ + "\n"@));
        assert(wraps(row_kernel@, "  kernel \u{2502} "@));
        lemma_wraps_contains(row_kernel@, "  kernel \u{2502} "@);
    }
    let ghost row_kernel_v = row_kernel@;
    rows.push(row_kernel);

    let mut row_uptime = String::new();
    row_uptime.append("  \u{2502} ");
    let g4 = paint_cyan("");
    row_uptime.append(g4.as_str());
    let ghost lab_uptime = row_uptime@;
    row_uptime.append("  uptime \u{2502} ");
    let pv_uptime = paint_blue(uptime);
    let ghost pre_uptime = row_uptime@;
    row_uptime.append(pv_uptime.as_str());
    row_uptime.append("\n");
    proof {
        if esc_free(uptime@) {
            lemma_wraps_in_context(pre_uptime, pv_uptime@, "\n"@, uptime@);
            lemma_wraps_contains(row_uptime@, uptime@);
        }
        assert(row_uptime@ =~= lab_uptime + "  uptime \u{2502} "@ + (pv_uptime@ + "\n"@));
        assert(wraps(row_uptime@, "  uptime \u{2502} "@));
        lemma_wraps_contains(row_uptime@, "  uptime \u{2502} "@);
    }
    let ghost row_uptime_v = row_uptime@;
    rows.push(row_uptime);

    let mut row_shell = String::new();
    row_shell.append("  \u{2502} ");
    let g5 = paint_magenta("");
    row_shell.append(g5.as_str());
    let ghost lab_shell = row_shell@;
    row_shell.append("  shell  \u{2502} ");
    let pv_shell = paint_magenta(shell);
    let ghost pre_shell = row_shell@;
    row_shell.append(pv_shell.as_str());
    row_shell.append("\n");
    proof {
        if esc_free(shell@) {
            lemma_wraps_in_context(pre_shell, pv_shell@, "\n"@, shell@);
            lemma_wraps_contains(row_shell@, shell@);
        }
        assert(row_shell@ =~= lab_shell + "  shell  \u{2502} "@ + (pv_shell@ + "\n"@));
        assert(wraps(row_shell@, "  shell  \u{2502} "@));
        lemma_wraps_contains(row_shell@, "  shell  \u{2502} "@);
    }
    let ghost row_shell_v = row_shell@;
    rows.push(row_shell);

    let mut row_editor = String::new();
    row_editor.append("  \u{2502} ");
    let g6 = paint_bright_black("");
    row_editor.append(g6.as_str());
    let ghost lab_editor = row_editor@;
    row_editor.append("  editor \u{2502} ");
    let pv_editor = paint_bright_black(editor);
    let ghost pre_editor = row_editor@;
    row_editor.append(pv_editor.as_str());
    row_editor.append("\n");
    proof {
        if esc_free(editor@) {
            lemma_wraps_in_context(pre_editor, pv_editor@, "\n"@, editor@);
            lemma_wraps_contains(row_editor@, editor@);
        }
        assert(row_editor@ =~= lab_editor + "  editor \u{2502} "@ + (pv_editor@ + "\n"@));
        assert(wraps(row_editor@, "  editor \u{2502} "@));
        lemma_wraps_contains(row_editor@, "  editor \u{2502} "@);
    }
    let ghost row_editor_v = row_editor@;
    rows.push(row_editor);

    let mut row_memory = String::new();
    row_memory.append("  \u{2502} ");
    let g7 = paint_blue("");
    row_memory.append(g7.as_str());
    let ghost lab_memory = row_memory@;
    row_memory.append("  memory \u{2502} ");
    let ghost pre_memt = row_memory@;
    row_memory.append(mem_total);
    row_memory.append("/");
    let ghost pre_memu = row_memory@;
    row_memory.append(mem_used);
    row_memory.append("\n");
    proof {
        assert(row_memory@ =~= pre_memt + mem_total@ + ("/"@ + mem_used@ + "\n"@));
        assert(wraps(row_memory@, mem_total@));
        assert(row_memory@ =~= pre_memu + mem_used@ + "\n"@);
        assert(wraps(row_memory@, mem_used@));
        lemma_wraps_contains(row_memory@, mem_total@);
        lemma_wraps_contains(row_memory@, mem_used@);
        assert(row_memory@ =~= lab_memory + "  memory \u{2502} "@ + (mem_total@ + "/"@ + mem_used@
            + "\n"@));
        assert(wraps(row_memory@, "  memory \u{2502} "@));
        lemma_wraps_contains(row_memory@, "  memory \u{2502} "@);
    }
    let ghost row_memory_v = row_memory@;
    rows.push(row_memory);

    let mut row_colors = String::new();
    row_colors.append("  \u{251c}\u{2500}\u{2500}\u{2500}\u{2500}\u{2500}\u{2500}\u{2500}\u{2500}\u{2500}\u{2500}\u{2500}\u{2524}\n  \u{2502} ");
    let ghost div_end = row_colors@;
    let g8 = paint_white("");
    row_colors.append(g8.as_str());
    let ghost lab_colors_pre = row_colors@;
    row_colors.append("  colors \u{2502} ");
    let ghost lab_colors_end = row_colors@;
    let d0 = paint_white(" ");
    row_colors.append(d0.as_str());
    let d1 = paint_red(" ");
    row_colors.append(d1.as_str());
    let d2 = paint_yellow(" ");
    row_colors.append(d2.as_str());
    let d3 = paint_green(" ");
    row_colors.append(d3.as_str());
    let d4 = paint_cyan(" ");
    row_colors.append(d4.as_str());
    let d5 = paint_magenta(" ");
    row_colors.append(d5.as_str());
    let d6 = paint_black(" ");
    row_colors.append(d6.as_str());
    let d7 = paint_blue(" ");
    row_colors.append(d7.as_str());
    let ghost bot_pre = row_colors@;
    row_colors.append("\n  \u{2570}\u{2500}\u{2500}\u{2500}\u{2500}\u{2500}\u{2500}\u{2500}\u{2500}\u{2500}\u{2500}\u{2500}\u{256f}\n");
    proof {
        let divider = "  \u{251c}\u{2500}\u{2500}\u{2500}\u{2500}\u{2500}\u{2500}\u{2500}\u{2500}\u{2500}\u{2500}\u{2500}\u{2524}\n  \u{2502} "@;
        let bottom = "\n  \u{2570}\u{2500}\u{2500}\u{2500}\u{2500}\u{2500}\u{2500}\u{2500}\u{2500}\u{2500}\u{2500}\u{2500}\u{256f}\n"@;
        assert(div_end == Seq::<char>::empty() + divider);
        assert(row_colors@ =~= div_end + row_colors@.skip(div_end.len() as int));
        assert(div_end =~= divider);
        lemma_contains_self(divider);
        lemma_contains_extend_right(div_end, row_colors@.skip(div_end.len() as int), divider);
        assert(row_colors@ =~= lab_colors_pre + "  colors \u{2502} "@ + row_colors@.skip(
            lab_colors_end.len() as int,
        ));
        assert(wraps(row_colors@, "  colors \u{2502} "@));
        lemma_wraps_contains(row_colors@, "  colors \u{2502} "@);
        assert(row_colors@ =~= bot_pre + bottom + Seq::<char>::empty());
        assert(wraps(row_colors@, bottom));
        lemma_wraps_contains(row_colors@, bottom);
    }
    let ghost row_colors_v = row_colors@;
    rows.push(row_colors);

    let out = concat_all(&rows);
    proof {
        assert(rows@[0]@ == row_logo_v);
        assert(rows@[1]@ == row_user_v);
        assert(rows@[2]@ == row_host_v);
        assert(rows@[3]@ == row_distro_v);
        assert(rows@[4]@ == row_kernel_v);
        assert(rows@[5]@ == row_uptime_v);
        assert(rows@[6]@ == row_shell_v);
        assert(rows@[7]@ == row_editor_v);
        assert(rows@[8]@ == row_memory_v);
        assert(rows@[9]@ == row_colors_v);
        if esc_free(user@) {
            lemma_contains_trans(out@, row_user_v, user@);
        }
        if esc_free(hostname@) {
            lemma_contains_trans(out@, row_host_v, hostname@);
        }
        if esc_free(distro@) {
            lemma_contains_trans(out@, row_distro_v, distro@);
        }
        if esc_free(kernel@) {
            lemma_contains_trans(out@, row_kernel_v, kernel@);
        }
        if esc_free(uptime@) {
            lemma_contains_trans(out@, row_uptime_v, uptime@);
        }
        if esc_free(shell@) {
            lemma_contains_trans(out@, row_shell_v, shell@);
        }
        if esc_free(editor@) {
            lemma_contains_trans(out@, row_editor_v, editor@);
        }
        lemma_contains_trans(out@, row_memory_v, mem_total@);
        lemma_contains_trans(out@, row_memory_v, mem_used@);
        lemma_contains_trans(
            out@,
            row_logo_v,
            "\n  \u{256d}\u{2500}\u{2500}\u{2500}\u{2500}\u{2500}\u{2500}\u{2500}\u{2500}\u{2500}\u{2500}\u{2500}\u{256e}\n"@,
        );
        lemma_contains_trans(out@, row_user_v, "  user   \u{2502} "@);
        lemma_contains_trans(out@, row_host_v, "  hname  \u{2502} "@);
        lemma_contains_trans(out@, row_distro_v, "  distro \u{2502} "@);
        lemma_contains_trans(out@, row_kernel_v, "  kernel \u{2502} "@);
        lemma_contains_trans(out@, row_uptime_v, "  uptime \u{2502} "@);
        lemma_contains_trans(out@, row_shell_v, "  shell  \u{2502} "@);
        lemma_contains_trans(out@, row_editor_v, "  editor \u{2502} "@);
        lemma_contains_trans(out@, row_memory_v, "  memory \u{2502} "@);
        lemma_contains_trans(
            out@,
            row_colors_v,
            "  \u{251c}\u{2500}\u{2500}\u{2500}\u{2500}\u{2500}\u{2500}\u{2500}\u{2500}\u{2500}\u{2500}\u{2500}\u{2524}\n  \u{2502} "@,
        );
        lemma_contains_trans(out@, row_colors_v, "  colors \u{2502} "@);
        lemma_contains_trans(
            out@,
            row_colors_v,
            "\n  \u{2570}\u{2500}\u{2500}\u{2500}\u{2500}\u{2500}\u{2500}\u{2500}\u{2500}\u{2500}\u{2500}\u{2500}\u{256f}\n"@,
        );
    }
    out
}


/// The top border of a filesystem box, sized to its three columns.
pub open spec fn border_top(m: nat, s: nat, u: nat) -> Seq<char> {
    "  \u{256d}"@ + rule_of(m) + "\u{2500}\u{2500}"@ + "\u{252c}"@ + rule_of(s) + "\u{2500}"@
        + rule_of(u) + "\u{256e}\n"@
}

/// The bottom border of a filesystem box, sized to its three columns.
pub open spec fn border_bottom(m: nat, s: nat, u: nat) -> Seq<char> {
    "  \u{2570}"@ + rule_of(m) + "\u{2500}\u{2500}"@ + "\u{2534}"@ + rule_of(s) + "\u{2500}"@
        + rule_of(u) + "\u{256f}\n"@
}

/// Render one box per filesystem row: borders sized per column to the
/// character length of each field, the fields themselves between them.
pub fn render_drives(entries: &Vec<FsEntry>) -> (r: String)
    ensures
        entries@.len() == 0 ==> r@ == Seq::<char>::empty(),
        forall|i: int|
            0 <= i < entries@.len() ==> {
                let m = (#[trigger] entries@[i]).mount_point@.len();
                let s = entries@[i].size@.len();
                let u = entries@[i].used@.len();
                contains_sub(r@, border_top(m, s, u)) && contains_sub(r@, border_bottom(m, s, u))
                    && (esc_free(entries@[i].mount_point@) ==> contains_sub(
                    r@,
                    entries@[i].mount_point@,
                )) && (esc_free(entries@[i].size@) ==> contains_sub(r@, entries@[i].size@)) && (
                esc_free(entries@[i].used@) ==> contains_sub(r@, entries@[i].used@))
            },
{
    if entries.len() == 0 {
        let out = String::new();
        return out;
    }
    let mut parts: Vec<String> = Vec::new();
    let mut i: usize = 0;
    while i < entries.len()
        invariant
            i <= entries@.len(),
            parts@.len() == i,
            forall|j: int|
                0 <= j < i ==> {
                    let m = (#[trigger] entries@[j]).mount_point@.len();
                    let s = entries@[j].size@.len();
                    let u = entries@[j].used@.len();
                    contains_sub(parts@[j]@, border_top(m, s, u)) && contains_sub(
                        parts@[j]@,
                        border_bottom(m, s, u),
                    ) && (esc_free(entries@[j].mount_point@) ==> contains_sub(
                        parts@[j]@,
                        entries@[j].mount_point@,
                    )) && (esc_free(entries@[j].size@) ==> contains_sub(
                        parts@[j]@,
                        entries@[j].size@,
                    )) && (esc_free(entries@[j].used@) ==> contains_sub(
                        parts@[j]@,
                        entries@[j].used@,
                    ))
                },
        decreases entries@.len() - i,
    {
        let e = &entries[i];
        let m = e.mount_point.as_str().unicode_len();
        let s = e.size.as_str().unicode_len();
        let u = e.used.as_str().unicode_len();
        let mut bx = String::new();
        bx.append("  \u{256d}");
        let rm = rule(m);
        bx.append(rm.as_str());
        bx.append("\u{2500}\u{2500}");
        bx.append("\u{252c}");
        let rs = rule(s);
        bx.append(rs.as_str());
        bx.append("\u{2500}");
        let ru = rule(u);
        bx.append(ru.as_str());
        bx.append("\u{256e}\n");
        let ghost top_v = bx@;
        proof {
            assert(top_v =~= border_top(m as nat, s as nat, u as nat));
            lemma_contains_self(top_v);
        }
        bx.append("  \u{2502} ");
        let pm = paint_bright_black(e.mount_point.as_str());
        let ghost pre_m = bx@;
        bx.append(pm.as_str());
        bx.append("|");
        let ps = paint_cyan(e.size.as_str());
        let ghost pre_s = bx@;
        bx.append(ps.as_str());
        bx.append("/");
        let pu = paint_white(e.used.as_str());
        let ghost pre_u = bx@;
        bx.append(pu.as_str());
        bx.append("\u{2502}\n");
        let ghost mid_end = bx@;
        proof {
            if esc_free(e.mount_point@) {
                lemma_wraps_in_context(
                    pre_m,
                    pm@,
                    "|"@ + ps@ + "/"@ + pu@ + "\u{2502}\n"@,
                    e.mount_point@,
                );
                assert(mid_end =~= pre_m + pm@ + ("|"@ + ps@ + "/"@ + pu@ + "\u{2502}\n"@));
                lemma_wraps_contains(mid_end, e.mount_point@);
            }
            if esc_free(e.size@) {
                lemma_wraps_in_context(pre_s, ps@, "/"@ + pu@ + "\u{2502}\n"@, e.size@);
                assert(mid_end =~= pre_s + ps@ + ("/"@ + pu@ + "\u{2502}\n"@));
                lemma_wraps_contains(mid_end, e.size@);
            }
            if esc_free(e.used@) {
                lemma_wraps_in_context(pre_u, pu@, "\u{2502}\n"@, e.used@);
                assert(mid_end =~= pre_u + pu@ + "\u{2502}\n"@);
                lemma_wraps_contains(mid_end, e.used@);
            }
            lemma_contains_extend_right(top_v, mid_end.skip(top_v.len() as int), top_v);
            assert(top_v + mid_end.skip(top_v.len() as int) =~= mid_end);
        }
        let mut bot = String::new();
        bot.append("  \u{2570}");
        let rm2 = rule(m);
        bot.append(rm2.as_str());
        bot.append("\u{2500}\u{2500}");
        bot.append("\u{2534}");
        let rs2 = rule(s);
        bot.append(rs2.as_str());
        bot.append("\u{2500}");
        let ru2 = rule(u);
        bot.append(ru2.as_str());
        bot.append("\u{256f}\n");
        proof {
            assert(bot@ =~= border_bottom(m as nat, s as nat, u as nat));
            lemma_contains_self(bot@);
        }
        let ghost bot_v = bot@;
        bx.append(bot.as_str());
        proof {
            lemma_contains_extend_right(mid_end, bot_v, top_v);
            if esc_free(e.mount_point@) {
                lemma_contains_extend_right(mid_end, bot_v, e.mount_point@);
            }
            if esc_free(e.size@) {
                lemma_contains_extend_right(mid_end, bot_v, e.size@);
            }
            if esc_free(e.used@) {
                lemma_contains_extend_right(mid_end, bot_v, e.used@);
            }
            lemma_contains_extend_left(mid_end, bot_v, bot_v);
        }
        parts.push(bx);
        i += 1;
    }
    let out = concat_all(&parts);
    proof {
        assert forall|j: int| 0 <= j < entries@.len() implies {
            let m = (#[trigger] entries@[j]).mount_point@.len();
            let s = entries@[j].size@.len();
            let u = entries@[j].used@.len();
            contains_sub(out@, border_top(m, s, u)) && contains_sub(out@, border_bottom(m, s, u))
                && (esc_free(entries@[j].mount_point@) ==> contains_sub(
                out@,
                entries@[j].mount_point@,
            )) && (esc_free(entries@[j].size@) ==> contains_sub(out@, entries@[j].size@)) && (
            esc_free(entries@[j].used@) ==> contains_sub(out@, entries@[j].used@))
        } by {
            let m = entries@[j].mount_point@.len();
            let s = entries@[j].size@.len();
            let u = entries@[j].used@.len();
            lemma_contains_trans(out@, parts@[j]@, border_top(m, s, u));
            lemma_contains_trans(out@, parts@[j]@, border_bottom(m, s, u));
            if esc_free(entries@[j].mount_point@) {
                lemma_contains_trans(out@, parts@[j]@, entries@[j].mount_point@);
            }
            if esc_free(entries@[j].size@) {
                lemma_contains_trans(out@, parts@[j]@, entries@[j].size@);
            }
            if esc_free(entries@[j].used@) {
                lemma_contains_trans(out@, parts@[j]@, entries@[j].used@);
            }
        }
    }
    out
}

} // verus!
