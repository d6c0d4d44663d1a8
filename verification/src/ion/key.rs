use vstd::prelude::*;

verus! {

/// A key of the keyboard.
#[derive(Clone, Copy, PartialEq, Eq, PartialOrd, Ord, Debug, Hash, Structural)]
pub enum Key {
    Left,
    Up,
    Down,
    Right,
    Okay,
    Back,
    Home,
    OnOff,
    Shift,
    Alpha,
    Xnt,
    Var,
    Toolbox,
    Backspace,
    Exp,
    Ln,
    Log,
    Imaginary,
    Comma,
    Power,
    Sine,
    Cosine,
    Tangent,
    Pi,
    Sqrt,
    Square,
    Seven,
    Eight,
    Nine,
    LParens,
    RParens,
    Four,
    Five,
    Six,
    Mult,
    Division,
    One,
    Two,
    Three,
    Plus,
    Minus,
    Zero,
    Dot,
    Ee,
    Ans,
    Exe,
}

impl Key {
    /// The number of the key: the bit that stands for it in the state of the
    /// keyboard. The numbering has gaps.
    pub open spec fn code_of(self) -> u8 {
        match self {
            Key::Left => 0,
            Key::Up => 1,
            Key::Down => 2,
            Key::Right => 3,
            Key::Okay => 4,
            Key::Back => 5,
            Key::Home => 6,
            Key::OnOff => 8,
            Key::Shift => 12,
            Key::Alpha => 13,
            Key::Xnt => 14,
            Key::Var => 15,
            Key::Toolbox => 16,
            Key::Backspace => 17,
            Key::Exp => 18,
            Key::Ln => 19,
            Key::Log => 20,
            Key::Imaginary => 21,
            Key::Comma => 22,
            Key::Power => 23,
            Key::Sine => 24,
            Key::Cosine => 25,
            Key::Tangent => 26,
            Key::Pi => 27,
            Key::Sqrt => 28,
            Key::Square => 29,
            Key::Seven => 30,
            Key::Eight => 31,
            Key::Nine => 32,
            Key::LParens => 33,
            Key::RParens => 34,
            Key::Four => 36,
            Key::Five => 37,
            Key::Six => 38,
            Key::Mult => 39,
            Key::Division => 40,
            Key::One => 42,
            Key::Two => 43,
            Key::Three => 44,
            Key::Plus => 45,
            Key::Minus => 46,
            Key::Zero => 48,
            Key::Dot => 49,
            Key::Ee => 50,
            Key::Ans => 51,
            Key::Exe => 52,
        }
    }

    /// The number of the key: the bit that stands for it in the state of the
    /// keyboard. The numbering has gaps.
    pub fn code(self) -> (code: u8)
        ensures
            code == self.code_of(),
    {
        match self {
            Key::Left => 0,
            Key::Up => 1,
            Key::Down => 2,
            Key::Right => 3,
            Key::Okay => 4,
            Key::Back => 5,
            Key::Home => 6,
            Key::OnOff => 8,
            Key::Shift => 12,
            Key::Alpha => 13,
            Key::Xnt => 14,
            Key::Var => 15,
            Key::Toolbox => 16,
            Key::Backspace => 17,
            Key::Exp => 18,
            Key::Ln => 19,
            Key::Log => 20,
            Key::Imaginary => 21,
            Key::Comma => 22,
            Key::Power => 23,
            Key::Sine => 24,
            Key::Cosine => 25,
            Key::Tangent => 26,
            Key::Pi => 27,
            Key::Sqrt => 28,
            Key::Square => 29,
            Key::Seven => 30,
            Key::Eight => 31,
            Key::Nine => 32,
            Key::LParens => 33,
            Key::RParens => 34,
            Key::Four => 36,
            Key::Five => 37,
            Key::Six => 38,
            Key::Mult => 39,
            Key::Division => 40,
            Key::One => 42,
            Key::Two => 43,
            Key::Three => 44,
            Key::Plus => 45,
            Key::Minus => 46,
            Key::Zero => 48,
            Key::Dot => 49,
            Key::Ee => 50,
            Key::Ans => 51,
            Key::Exe => 52,
        }
    }

    /// The key with the given number, if there is one.
    pub fn from_code(code: u8) -> (found: Option<Key>)
        ensures
            match found {
                Some(it) => it.code_of() == code,
                None => forall|it: Key| it.code_of() != code,
            },
    {
        match code {
            0 => Some(Key::Left),
            1 => Some(Key::Up),
            2 => Some(Key::Down),
            3 => Some(Key::Right),
            4 => Some(Key::Okay),
            5 => Some(Key::Back),
            6 => Some(Key::Home),
            8 => Some(Key::OnOff),
            12 => Some(Key::Shift),
            13 => Some(Key::Alpha),
            14 => Some(Key::Xnt),
            15 => Some(Key::Var),
            16 => Some(Key::Toolbox),
            17 => Some(Key::Backspace),
            18 => Some(Key::Exp),
            19 => Some(Key::Ln),
            20 => Some(Key::Log),
            21 => Some(Key::Imaginary),
            22 => Some(Key::Comma),
            23 => Some(Key::Power),
            24 => Some(Key::Sine),
            25 => Some(Key::Cosine),
            26 => Some(Key::Tangent),
            27 => Some(Key::Pi),
            28 => Some(Key::Sqrt),
            29 => Some(Key::Square),
            30 => Some(Key::Seven),
            31 => Some(Key::Eight),
            32 => Some(Key::Nine),
            33 => Some(Key::LParens),
            34 => Some(Key::RParens),
            36 => Some(Key::Four),
            37 => Some(Key::Five),
            38 => Some(Key::Six),
            39 => Some(Key::Mult),
            40 => Some(Key::Division),
            42 => Some(Key::One),
            43 => Some(Key::Two),
            44 => Some(Key::Three),
            45 => Some(Key::Plus),
            46 => Some(Key::Minus),
            48 => Some(Key::Zero),
            49 => Some(Key::Dot),
            50 => Some(Key::Ee),
            51 => Some(Key::Ans),
            52 => Some(Key::Exe),
            _ => None,
        }
    }
}

/// No two keys share a number, and every number is below 64.
pub proof fn lemma_key_codes(a: Key, b: Key)
    ensures
        a.code_of() < 64,
        a.code_of() == b.code_of() ==> a == b,
{
}

} // verus!
