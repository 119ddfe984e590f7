//! Screens made of components that know how to draw themselves.
use vstd::prelude::*;
use vstd::string::*;

verus! {

/// The decimal digit that stands for `digit`, which is below ten.
pub open spec fn digit_text(digit: nat) -> Seq<char> {
    if digit == 0 {
        "0"@
    } else if digit == 1 {
        "1"@
    } else if digit == 2 {
        "2"@
    } else if digit == 3 {
        "3"@
    } else if digit == 4 {
        "4"@
    } else if digit == 5 {
        "5"@
    } else if digit == 6 {
        "6"@
    } else if digit == 7 {
        "7"@
    } else if digit == 8 {
        "8"@
    } else {
        "9"@
    }
}

/// The number `n` written in decimal digits, without leading zeros.
pub open spec fn decimal_text(n: nat) -> Seq<char>
    decreases n,
{
    if n < 10 {
        digit_text(n)
    } else {
        decimal_text(n / 10) + digit_text(n % 10)
    }
}

/// The decimal digit that stands for `value`.
fn digit(value: usize) -> (text: &'static str)
    requires
        value < 10,
    ensures
        text@ == digit_text(value as nat),
{
    if value == 0 {
        "0"
    } else if value == 1 {
        "1"
    } else if value == 2 {
        "2"
    } else if value == 3 {
        "3"
    } else if value == 4 {
        "4"
    } else if value == 5 {
        "5"
    } else if value == 6 {
        "6"
    } else if value == 7 {
        "7"
    } else if value == 8 {
        "8"
    } else {
        "9"
    }
}

/// Writes `n` in decimal digits.
pub fn decimal(n: usize) -> (text: String)
    ensures
        text@ == decimal_text(n as nat),
{
    let mut text = String::from_str(digit(n % 10));
    let mut rest = n / 10;
    while rest > 0
        invariant
            decimal_text(n as nat) == if rest == 0 {
                text@
            } else {
                decimal_text(rest as nat) + text@
            },
        decreases rest,
    {
        let mut longer = String::from_str(digit(rest % 10));
        longer.append(text.as_str());
        proof {
            let lower = text@;
            if rest >= 10 {
                assert(decimal_text(rest as nat) + lower =~= decimal_text((rest / 10) as nat) + (
                digit_text((rest % 10) as nat) + lower));
            }
        }
        text = longer;
        rest = rest / 10;
    }
    text
}

/// Something that can draw itself.
pub trait Draw {
    /// Whether `line` is a picture of the component. Unless a component says
    /// otherwise, any line is.
    open spec fn draws(&self, line: Seq<char>) -> bool {
        true
    }

    /// Draws the component: returns its picture as one line of text.
    fn draw(&self) -> (line: String)
        ensures
            self.draws(line@),
    ;
}

/// A screen whose components may be of different types.
pub struct Screen {
    pub components: Vec<Box<dyn Draw>>,
}

/// A screen whose components are all of one type.
pub struct ScreenGenric<T: Draw> {
    pub components: Vec<T>,
}

impl Screen {
    /// Draws every component, first to last, and returns the lines.
    pub fn run(&self) -> (lines: Vec<String>)
        ensures
            lines@.len() == self.components@.len(),
            forall|i: int|
                0 <= i < lines@.len() ==> self.components@[i].draws((#[trigger] lines@[i])@),
    {
        let mut lines: Vec<String> = Vec::new();
        let mut i: usize = 0;
        while i < self.components.len()
            invariant
                i <= self.components@.len(),
                lines@.len() == i,
                forall|k: int|
                    0 <= k < i ==> self.components@[k].draws((#[trigger] lines@[k])@),
            decreases self.components@.len() - i,
        {
            let line = self.components[i].draw();
            lines.push(line);
            i = i + 1;
        }
        lines
    }
}

impl<T: Draw> ScreenGenric<T> {
    /// Draws every component, first to last, and returns the lines.
    pub fn run(&self) -> (lines: Vec<String>)
        ensures
            lines@.len() == self.components@.len(),
            forall|i: int|
                0 <= i < lines@.len() ==> self.components@[i].draws((#[trigger] lines@[i])@),
    {
        let mut lines: Vec<String> = Vec::new();
        let mut i: usize = 0;
        while i < self.components.len()
            invariant
                i <= self.components@.len(),
                lines@.len() == i,
                forall|k: int|
                    0 <= k < i ==> self.components@[k].draws((#[trigger] lines@[k])@),
            decreases self.components@.len() - i,
        {
            let line = self.components[i].draw();
            lines.push(line);
            i = i + 1;
        }
        lines
    }
}

/// A button of some size with a label.
pub struct Button {
    pub width: usize,
    pub height: usize,
    pub content: String,
}

impl Draw for Button {
    /// The picture of a button is `draw button[WxH], content: LABEL.`
    open spec fn draws(&self, line: Seq<char>) -> bool {
        line == "draw button["@ + decimal_text(self.width as nat) + "x"@ + decimal_text(
            self.height as nat,
        ) + "], content: "@ + self.content@ + "."@
    }

    fn draw(&self) -> (line: String) {
        let mut line = String::from_str("draw button[");
        line.append(decimal(self.width).as_str());
        line.append("x");
        line.append(decimal(self.height).as_str());
        line.append("], content: ");
        line.append(self.content.as_str());
        line.append(".");
        line
    }
}

/// A group of options of which one can be selected.
pub struct SelectedRadio {
    pub options: Vec<String>,
}

/// The debugging text of a list of strings: the strings in double quotes,
/// with special characters escaped, separated by commas and enclosed in
/// square brackets.
pub uninterp spec fn debug_text(options: Seq<Seq<char>>) -> Seq<char>;

/// The texts of a list of strings.
pub open spec fn texts(options: Seq<String>) -> Seq<Seq<char>> {
    Seq::new(options.len(), |i: int| options[i]@)
}

/// Formats a list of strings for debugging with `format!("{:?}", ..)`, that
/// is, by the standard library's `Debug` implementation for `Vec<String>`.
/// The result depends on the texts alone; the contract gives it the name
/// [`debug_text`] and claims nothing else of it.
#[verifier::external_body]
fn debug_format(options: &Vec<String>) -> (text: String)
    ensures
        text@ == debug_text(texts(options@)),
{
    format!("{:?}", options)
}

impl Draw for SelectedRadio {
    /// The picture of a group of options is `draw selected radio: ` and the
    /// debugging text of the options.
    open spec fn draws(&self, line: Seq<char>) -> bool {
        line == "draw selected radio: "@ + debug_text(texts(self.options@))
    }

    fn draw(&self) -> (line: String) {
        let mut line = String::from_str("draw selected radio: ");
        line.append(debug_format(&self.options).as_str());
        line
    }
}

} // verus!
