//! Coloured output: what is sent to a terminal, and in which order.

use vstd::prelude::*;

verus! {

/// A colour of the terminal, by its number.
pub type Color = u32;

/// Which of the standard streams are terminals.
#[derive(Debug, Clone, Copy, PartialEq, Eq, Structural)]
pub struct Term {
    pub stdout_is_tty: bool,
    pub stderr_is_tty: bool,
    pub stdin_is_tty: bool,
}

/// One thing sent to a terminal.
#[derive(Debug, Clone, Copy, PartialEq, Eq, Structural)]
pub enum Output {
    /// Switch the foreground to this colour.
    Foreground(Color),
    /// Write the text.
    Text,
    /// Switch back to the terminal's own colours.
    Reset,
}

/// What printing a text in `color` sends: the text alone, or, where a colour
/// is asked for on a terminal that has colours, the text between the switch to
/// that colour and the switch back.
pub open spec fn output_plan(color: Option<Color>, supports_color: bool, is_tty: bool) -> Seq<
    Output,
> {
    match color {
        Some(c) => if is_tty && supports_color {
            seq![Output::Foreground(c), Output::Text, Output::Reset]
        } else {
            seq![Output::Text]
        },
        None => seq![Output::Text],
    }
}

/// What printing a text in `color` sends to a stream.
pub fn output_to(color: Option<Color>, supports_color: bool, is_tty: bool) -> (plan: Vec<Output>)
    ensures
        plan@ == output_plan(color, supports_color, is_tty),
{
    let use_color = is_tty && supports_color;
    let mut plan: Vec<Output> = Vec::new();
    if use_color {
        if let Some(c) = color {
            plan.push(Output::Foreground(c));
        }
    }
    plan.push(Output::Text);
    if use_color && color.is_some() {
        plan.push(Output::Reset);
    }
    proof {
        assert(plan@ =~= output_plan(color, supports_color, is_tty));
    }
    plan
}

impl Term {
    /// What printing a text in `color` sends to the error stream. Colour is
    /// used where standard output is a terminal.
    pub fn eprint(&self, color: Option<Color>, supports_color: bool) -> (plan: Vec<Output>)
        ensures
            plan@ == output_plan(color, supports_color, self.stdout_is_tty),
    {
        output_to(color, supports_color, self.stdout_is_tty)
    }
}

} // verus!
