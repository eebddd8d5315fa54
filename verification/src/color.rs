//! Fill colours and their textual form.

use vstd::prelude::*;
use vstd::string::*;

verus! {

/// An opaque colour with 8-bit red, green and blue channels.
#[derive(Clone, Copy, Debug, PartialEq, Eq, Structural)]
pub struct Color {
    pub red: u8,
    pub green: u8,
    pub blue: u8,
}

/// The character for the decimal digit `d`.
pub open spec fn digit_char(d: int) -> char {
    if d == 0 {
        '0'
    } else if d == 1 {
        '1'
    } else if d == 2 {
        '2'
    } else if d == 3 {
        '3'
    } else if d == 4 {
        '4'
    } else if d == 5 {
        '5'
    } else if d == 6 {
        '6'
    } else if d == 7 {
        '7'
    } else if d == 8 {
        '8'
    } else {
        '9'
    }
}

/// The decimal numeral of `n`, without sign or leading zeros.
pub open spec fn decimal_spec(n: nat) -> Seq<char>
    decreases n,
{
    if n < 10 {
        seq![digit_char(n as int)]
    } else {
        decimal_spec(n / 10).push(digit_char((n % 10) as int))
    }
}

impl Color {
    /// The colour in the form `rgb(R,G,B)`, each channel as a decimal
    /// numeral between 0 and 255.
    pub open spec fn fill_style_spec(self) -> Seq<char> {
        seq!['r', 'g', 'b', '('] + decimal_spec(self.red as nat) + seq![',']
            + decimal_spec(self.green as nat) + seq![','] + decimal_spec(self.blue as nat)
            + seq![')']
    }

    /// The colour with the given channels.
    pub fn new(red: u8, green: u8, blue: u8) -> (c: Color)
        ensures
            c == (Color { red, green, blue }),
    {
        Color { red, green, blue }
    }

    /// The text that selects this colour as a canvas fill style.
    pub fn fill_style(&self) -> (text: String)
        ensures
            text@ == self.fill_style_spec(),
    {
        let mut text = String::new();
        proof {
            reveal_strlit("rgb(");
            reveal_strlit(",");
            reveal_strlit(")");
        }
        text.append("rgb(");
        append_decimal(&mut text, self.red);
        text.append(",");
        append_decimal(&mut text, self.green);
        text.append(",");
        append_decimal(&mut text, self.blue);
        text.append(")");
        assert(text@ =~= self.fill_style_spec());
        text
    }
}

/// The one-character text of the decimal digit `d`.
fn digit_text(d: u8) -> (text: &'static str)
    requires
        d < 10,
    ensures
        text@ == seq![digit_char(d as int)],
{
    proof {
        reveal_strlit("0");
        reveal_strlit("1");
        reveal_strlit("2");
        reveal_strlit("3");
        reveal_strlit("4");
        reveal_strlit("5");
        reveal_strlit("6");
        reveal_strlit("7");
        reveal_strlit("8");
        reveal_strlit("9");
    }
    let text = if d == 0 {
        "0"
    } else if d == 1 {
        "1"
    } else if d == 2 {
        "2"
    } else if d == 3 {
        "3"
    } else if d == 4 {
        "4"
    } else if d == 5 {
        "5"
    } else if d == 6 {
        "6"
    } else if d == 7 {
        "7"
    } else if d == 8 {
        "8"
    } else {
        "9"
    };
    assert(text@ =~= seq![digit_char(d as int)]);
    text
}

/// Appends the decimal numeral of `n` to `text`.
fn append_decimal(text: &mut String, n: u8)
    ensures
        final(text)@ == old(text)@ + decimal_spec(n as nat),
{
    let ghost before = text@;
    if n >= 100 {
        text.append(digit_text(n / 100));
    }
    if n >= 10 {
        text.append(digit_text((n / 10) % 10));
    }
    text.append(digit_text(n % 10));
    proof {
        let value = n as nat;
        if value >= 100 {
            assert(decimal_spec(value / 100) == seq![digit_char((value / 100) as int)]);
            assert(decimal_spec(value / 10) == decimal_spec(value / 10 / 10).push(
                digit_char((value / 10 % 10) as int),
            ));
        } else if value >= 10 {
            assert(decimal_spec(value / 10) == seq![digit_char((value / 10) as int)]);
        }
        assert(text@ =~= before + decimal_spec(value));
    }
}

} // verus!
