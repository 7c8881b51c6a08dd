//! ASCII renderer: maps a step's velocity and probability to a display
//! token and lays a pattern out as a grid of eight columns per row.
//!
//! Velocity zero renders as the rest symbol; otherwise one of four
//! intensity glyphs is picked by `velocity * 4 / 128`, clamped to the top
//! glyph, optionally suffixed with the probability's last decimal digit.
use vstd::prelude::*;
use vstd::string::StringExecFns;

use crate::drums::Step;

verus! {

/// Decimal digit character for `d` in `0 ..= 9`.
pub open spec fn digit_char(d: int) -> char {
    if d == 0 {
        '0'
    } else if d == 1 {
        '1'
    } else if d == 2 {
        '2'
    } else if d == 3 {
        '3'
    } else if d == 4 {
        '4'
    } else if d == 5 {
        '5'
    } else if d == 6 {
        '6'
    } else if d == 7 {
        '7'
    } else if d == 8 {
        '8'
    } else {
        '9'
    }
}

/// Intensity glyph index for a nonzero velocity: `velocity * 4 / 128`,
/// clamped to the top glyph.
pub open spec fn level_index(velocity: u8) -> int {
    let i = (velocity as int) * 4 / 128;
    if i > 3 {
        3
    } else {
        i
    }
}

/// The four intensity glyphs, from weakest to strongest.
pub open spec fn level_char(velocity: u8) -> char {
    let i = level_index(velocity);
    if i == 0 {
        '▁'
    } else if i == 1 {
        '▃'
    } else if i == 2 {
        '▅'
    } else {
        '█'
    }
}

/// The token for one step with probability shown: the rest symbol for
/// velocity zero, else an intensity glyph followed by the probability's
/// last decimal digit.
pub open spec fn spec_step_symbol(velocity: u8, probability: u8) -> Seq<char> {
    if velocity == 0 {
        seq!['.']
    } else {
        seq![level_char(velocity), digit_char(probability as int % 10)]
    }
}

/// The token for one step: with probability shown it is
/// [`spec_step_symbol`]; without, the rest symbol or the full block.
pub open spec fn spec_token(st: Step, show_prob: bool) -> Seq<char> {
    if show_prob {
        spec_step_symbol(st.velocity, st.probability)
    } else if st.velocity == 0 {
        seq!['.']
    } else {
        seq!['█']
    }
}

/// The separator written before the token at position `i`: nothing before
/// the first, a newline at each row of eight, a space otherwise.
pub open spec fn spec_sep(i: int) -> Seq<char> {
    if i == 0 {
        Seq::<char>::empty()
    } else if i % 8 == 0 {
        seq!['\n']
    } else {
        seq![' ']
    }
}

/// The rendering of the first `n` steps.
pub open spec fn spec_render_upto(steps: Seq<Step>, show_prob: bool, n: int) -> Seq<char>
    decreases n,
{
    if n <= 0 {
        Seq::<char>::empty()
    } else {
        spec_render_upto(steps, show_prob, n - 1) + spec_sep(n - 1) + spec_token(steps[n - 1],
            show_prob)
    }
}

/// The full rendering of a step sequence.
pub open spec fn spec_render(steps: Seq<Step>, show_prob: bool) -> Seq<char> {
    spec_render_upto(steps, show_prob, steps.len() as int)
}

/// The token for one on/off step.
pub open spec fn spec_bool_token(on: bool) -> Seq<char> {
    if on {
        seq!['█']
    } else {
        seq!['.']
    }
}

/// The rendering of the first `n` on/off steps.
pub open spec fn spec_render_bool_upto(steps: Seq<bool>, n: int) -> Seq<char>
    decreases n,
{
    if n <= 0 {
        Seq::<char>::empty()
    } else {
        spec_render_bool_upto(steps, n - 1) + spec_sep(n - 1) + spec_bool_token(steps[n - 1])
    }
}

/// The full rendering of an on/off step sequence.
pub open spec fn spec_render_bool(steps: Seq<bool>) -> Seq<char> {
    spec_render_bool_upto(steps, steps.len() as int)
}

/// The two-digit pattern label: `P`, two decimal digits, a colon and a
/// space.
pub open spec fn label_seq(index: int) -> Seq<char> {
    seq!['P', digit_char(index / 10), digit_char(index % 10), ':', ' ']
}

/// The separator before position `i` in labeled output: rows after the
/// first start on a new line, indented to the label's width.
pub open spec fn spec_labeled_sep(i: int) -> Seq<char> {
    if i == 0 {
        Seq::<char>::empty()
    } else if i % 8 == 0 {
        seq!['\n', ' ', ' ', ' ', ' ', ' ']
    } else {
        seq![' ']
    }
}

/// The labeled rendering of the first `n` steps.
pub open spec fn spec_render_labeled_upto(steps: Seq<Step>, show_prob: bool, n: int) -> Seq<char>
    decreases n,
{
    if n <= 0 {
        Seq::<char>::empty()
    } else {
        spec_render_labeled_upto(steps, show_prob, n - 1) + spec_labeled_sep(n - 1) + spec_token(
            steps[n - 1], show_prob)
    }
}

/// The full labeled rendering: the label, then the grid with every row
/// after the first indented under the label.
pub open spec fn spec_render_labeled(index: int, steps: Seq<Step>, show_prob: bool) -> Seq<char> {
    label_seq(index) + spec_render_labeled_upto(steps, show_prob, steps.len() as int)
}

/// One decimal digit as a string slice.
fn digit_str(d: usize) -> (r: &'static str)
    requires
        d < 10,
    ensures
        r@ == seq![digit_char(d as int)],
{
    proof {
        reveal_strlit("0");
        reveal_strlit("1");
        reveal_strlit("2");
        reveal_strlit("3");
        reveal_strlit("4");
        reveal_strlit("5");
        reveal_strlit("6");
        reveal_strlit("7");
        reveal_strlit("8");
        reveal_strlit("9");
    }
    if d == 0 {
        "0"
    } else if d == 1 {
        "1"
    } else if d == 2 {
        "2"
    } else if d == 3 {
        "3"
    } else if d == 4 {
        "4"
    } else if d == 5 {
        "5"
    } else if d == 6 {
        "6"
    } else if d == 7 {
        "7"
    } else if d == 8 {
        "8"
    } else {
        "9"
    }
}

/// The intensity glyph for a nonzero velocity, as a string slice.
fn level_str(velocity: u8) -> (r: &'static str)
    ensures
        r@ == seq![level_char(velocity)],
{
    proof {
        reveal_strlit("▁");
        reveal_strlit("▃");
        reveal_strlit("▅");
        reveal_strlit("█");
    }
    let mut i: usize = (velocity as usize) * 4 / 128;
    if i > 3 {
        i = 3;
    }
    assert(i == level_index(velocity));
    if i == 0 {
        "▁"
    } else if i == 1 {
        "▃"
    } else if i == 2 {
        "▅"
    } else {
        "█"
    }
}

/// Display token for one step: the rest symbol for velocity zero, else an
/// intensity glyph suffixed with the probability's last decimal digit.
pub fn step_symbol(velocity: u8, probability: u8) -> (r: String)
    ensures
        r@ == spec_step_symbol(velocity, probability),
{
    if velocity == 0 {
        proof {
            reveal_strlit(".");
        }
        let r = ".".to_owned();
        assert(r@ =~= spec_step_symbol(velocity, probability));
        r
    } else {
        let mut r = level_str(velocity).to_owned();
        r.append(digit_str((probability % 10) as usize));
        assert(r@ =~= spec_step_symbol(velocity, probability));
        r
    }
}

/// Render a step sequence as a grid of eight space-separated tokens per
/// row, rows separated by newlines.
pub fn render_ascii(steps: &Vec<Step>, show_prob: bool) -> (out: String)
    ensures
        out@ == spec_render(steps@, show_prob),
{
    let mut out = String::new();
    let mut i: usize = 0;
    while i < steps.len()
        invariant
            i <= steps@.len(),
            out@ == spec_render_upto(steps@, show_prob, i as int),
        decreases steps@.len() - i,
    {
        proof {
            reveal_strlit("\n");
            reveal_strlit(" ");
            reveal_strlit(".");
            reveal_strlit("█");
        }
        if i > 0 {
            if i % 8 == 0 {
                out.append("\n");
            } else {
                out.append(" ");
            }
        }
        let st = steps[i];
        if show_prob {
            let sym = step_symbol(st.velocity, st.probability);
            out.append(sym.as_str());
        } else {
            if st.velocity == 0 {
                out.append(".");
            } else {
                out.append("█");
            }
        }
        assert(out@ =~= spec_render_upto(steps@, show_prob, i as int + 1));
        i = i + 1;
    }
    out
}

/// Render an on/off step sequence as the same eight-column grid.
pub fn render_ascii_bool(steps: &Vec<bool>) -> (out: String)
    ensures
        out@ == spec_render_bool(steps@),
{
    let mut out = String::new();
    let mut i: usize = 0;
    while i < steps.len()
        invariant
            i <= steps@.len(),
            out@ == spec_render_bool_upto(steps@, i as int),
        decreases steps@.len() - i,
    {
        proof {
            reveal_strlit("\n");
            reveal_strlit(" ");
            reveal_strlit(".");
            reveal_strlit("█");
        }
        if i > 0 {
            if i % 8 == 0 {
                out.append("\n");
            } else {
                out.append(" ");
            }
        }
        if steps[i] {
            out.append("█");
        } else {
            out.append(".");
        }
        assert(out@ =~= spec_render_bool_upto(steps@, i as int + 1));
        i = i + 1;
    }
    out
}

/// Render a pattern under a two-digit label, every row after the first
/// indented to the label's width so the grid aligns.
pub fn render_pattern_labeled(index: usize, steps: &Vec<Step>, show_prob: bool) -> (out: String)
    requires
        index < 100,
    ensures
        out@ == spec_render_labeled(index as int, steps@, show_prob),
{
    proof {
        reveal_strlit("P");
        reveal_strlit(": ");
    }
    let mut out = "P".to_owned();
    out.append(digit_str(index / 10));
    out.append(digit_str(index % 10));
    out.append(": ");
    assert(out@ =~= label_seq(index as int));
    let ghost label = out@;
    let mut i: usize = 0;
    while i < steps.len()
        invariant
            i <= steps@.len(),
            label == label_seq(index as int),
            out@ == label + spec_render_labeled_upto(steps@, show_prob, i as int),
        decreases steps@.len() - i,
    {
        proof {
            reveal_strlit("\n     ");
            reveal_strlit(" ");
            reveal_strlit(".");
            reveal_strlit("█");
        }
        if i > 0 {
            if i % 8 == 0 {
                out.append("\n     ");
            } else {
                out.append(" ");
            }
        }
        let st = steps[i];
        if show_prob {
            let sym = step_symbol(st.velocity, st.probability);
            out.append(sym.as_str());
        } else {
            if st.velocity == 0 {
                out.append(".");
            } else {
                out.append("█");
            }
        }
        assert(out@ =~= label + spec_render_labeled_upto(steps@, show_prob, i as int + 1));
        i = i + 1;
    }
    out
}

/// A step with velocity zero always renders as the rest symbol, whatever
/// its probability and whether probability display is enabled.
pub proof fn lemma_rest_symbol(probability: u8)
    ensures
        spec_step_symbol(0, probability) == seq!['.'],
        forall|st: Step, sp: bool| st.velocity == 0 ==> #[trigger] spec_token(st, sp) == seq!['.'],
{
}

} // verus!
