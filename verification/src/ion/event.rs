use vstd::prelude::*;

verus! {

/// What the keyboard reports when a key, or a key together with shift or
/// alpha, is pressed.
#[derive(Clone, Copy, PartialEq, Eq, PartialOrd, Ord, Debug, Hash, Structural)]
pub enum Event {
    Left,
    Up,
    Down,
    Right,
    Okay,
    Back,
    Shift,
    Alpha,
    Xnt,
    Var,
    Toolbox,
    Backspace,
    Exp,
    Ln,
    Log,
    Imaginary,
    Comma,
    Power,
    Sine,
    Cosine,
    Tangent,
    Pi,
    Sqrt,
    Square,
    Seven,
    Eight,
    Nine,
    LParens,
    RParens,
    Four,
    Five,
    Six,
    Mult,
    Division,
    One,
    Two,
    Three,
    Plus,
    Minus,
    Zero,
    Dot,
    Ee,
    Ans,
    Exe,
    ShiftLeft,
    ShiftUp,
    ShiftDown,
    ShiftRight,
    AlphaLock,
    Cut,
    Copy,
    Paste,
    Clear,
    LeftBracket,
    RightBracket,
    LeftBrace,
    RightBrace,
    Underscore,
    Sto,
    Arcsine,
    Arccosine,
    Arctangent,
    Equal,
    Lower,
    Greater,
    Colon,
    Semicolon,
    DoubleQuotes,
    Percent,
    LowerA,
    LowerB,
    LowerC,
    LowerD,
    LowerE,
    LowerF,
    LowerG,
    LowerH,
    LowerI,
    LowerJ,
    LowerK,
    LowerL,
    LowerM,
    LowerN,
    LowerO,
    LowerP,
    LowerQ,
    LowerR,
    LowerS,
    LowerT,
    LowerU,
    LowerV,
    LowerW,
    LowerX,
    LowerY,
    LowerZ,
    Space,
    Question,
    Exclamation,
    UpperA,
    UpperB,
    UpperC,
    UpperD,
    UpperE,
    UpperF,
    UpperG,
    UpperH,
    UpperI,
    UpperJ,
    UpperK,
    UpperL,
    UpperM,
    UpperN,
    UpperO,
    UpperP,
    UpperQ,
    UpperR,
    UpperS,
    UpperT,
    UpperU,
    UpperV,
    UpperW,
    UpperX,
    UpperY,
    UpperZ,
}

impl Event {
    /// The number under which the event is reported. The numbering has gaps.
    pub open spec fn code_of(self) -> u16 {
        match self {
            Event::Left => 0,
            Event::Up => 1,
            Event::Down => 2,
            Event::Right => 3,
            Event::Okay => 4,
            Event::Back => 5,
            Event::Shift => 12,
            Event::Alpha => 13,
            Event::Xnt => 14,
            Event::Var => 15,
            Event::Toolbox => 16,
            Event::Backspace => 17,
            Event::Exp => 18,
            Event::Ln => 19,
            Event::Log => 20,
            Event::Imaginary => 21,
            Event::Comma => 22,
            Event::Power => 23,
            Event::Sine => 24,
            Event::Cosine => 25,
            Event::Tangent => 26,
            Event::Pi => 27,
            Event::Sqrt => 28,
            Event::Square => 29,
            Event::Seven => 30,
            Event::Eight => 31,
            Event::Nine => 32,
            Event::LParens => 33,
            Event::RParens => 34,
            Event::Four => 36,
            Event::Five => 37,
            Event::Six => 38,
            Event::Mult => 39,
            Event::Division => 40,
            Event::One => 42,
            Event::Two => 43,
            Event::Three => 44,
            Event::Plus => 45,
            Event::Minus => 46,
            Event::Zero => 48,
            Event::Dot => 49,
            Event::Ee => 50,
            Event::Ans => 51,
            Event::Exe => 52,
            Event::ShiftLeft => 54,
            Event::ShiftUp => 55,
            Event::ShiftDown => 56,
            Event::ShiftRight => 57,
            Event::AlphaLock => 67,
            Event::Cut => 68,
            Event::Copy => 69,
            Event::Paste => 70,
            Event::Clear => 71,
            Event::LeftBracket => 72,
            Event::RightBracket => 73,
            Event::LeftBrace => 74,
            Event::RightBrace => 75,
            Event::Underscore => 76,
            Event::Sto => 77,
            Event::Arcsine => 78,
            Event::Arccosine => 79,
            Event::Arctangent => 80,
            Event::Equal => 81,
            Event::Lower => 82,
            Event::Greater => 83,
            Event::Colon => 122,
            Event::Semicolon => 123,
            Event::DoubleQuotes => 124,
            Event::Percent => 125,
            Event::LowerA => 126,
            Event::LowerB => 127,
            Event::LowerC => 128,
            Event::LowerD => 129,
            Event::LowerE => 130,
            Event::LowerF => 131,
            Event::LowerG => 132,
            Event::LowerH => 133,
            Event::LowerI => 134,
            Event::LowerJ => 135,
            Event::LowerK => 136,
            Event::LowerL => 137,
            Event::LowerM => 138,
            Event::LowerN => 139,
            Event::LowerO => 140,
            Event::LowerP => 141,
            Event::LowerQ => 142,
            Event::LowerR => 144,
            Event::LowerS => 145,
            Event::LowerT => 146,
            Event::LowerU => 147,
            Event::LowerV => 148,
            Event::LowerW => 150,
            Event::LowerX => 151,
            Event::LowerY => 152,
            Event::LowerZ => 153,
            Event::Space => 154,
            Event::Question => 156,
            Event::Exclamation => 157,
            Event::UpperA => 180,
            Event::UpperB => 181,
            Event::UpperC => 182,
            Event::UpperD => 183,
            Event::UpperE => 184,
            Event::UpperF => 185,
            Event::UpperG => 186,
            Event::UpperH => 187,
            Event::UpperI => 188,
            Event::UpperJ => 189,
            Event::UpperK => 190,
            Event::UpperL => 191,
            Event::UpperM => 192,
            Event::UpperN => 193,
            Event::UpperO => 194,
            Event::UpperP => 195,
            Event::UpperQ => 196,
            Event::UpperR => 198,
            Event::UpperS => 199,
            Event::UpperT => 200,
            Event::UpperU => 201,
            Event::UpperV => 202,
            Event::UpperW => 204,
            Event::UpperX => 205,
            Event::UpperY => 206,
            Event::UpperZ => 207,
        }
    }

    /// The number under which the event is reported. The numbering has gaps.
    pub fn code(self) -> (code: u16)
        ensures
            code == self.code_of(),
    {
        match self {
            Event::Left => 0,
            Event::Up => 1,
            Event::Down => 2,
            Event::Right => 3,
            Event::Okay => 4,
            Event::Back => 5,
            Event::Shift => 12,
            Event::Alpha => 13,
            Event::Xnt => 14,
            Event::Var => 15,
            Event::Toolbox => 16,
            Event::Backspace => 17,
            Event::Exp => 18,
            Event::Ln => 19,
            Event::Log => 20,
            Event::Imaginary => 21,
            Event::Comma => 22,
            Event::Power => 23,
            Event::Sine => 24,
            Event::Cosine => 25,
            Event::Tangent => 26,
            Event::Pi => 27,
            Event::Sqrt => 28,
            Event::Square => 29,
            Event::Seven => 30,
            Event::Eight => 31,
            Event::Nine => 32,
            Event::LParens => 33,
            Event::RParens => 34,
            Event::Four => 36,
            Event::Five => 37,
            Event::Six => 38,
            Event::Mult => 39,
            Event::Division => 40,
            Event::One => 42,
            Event::Two => 43,
            Event::Three => 44,
            Event::Plus => 45,
            Event::Minus => 46,
            Event::Zero => 48,
            Event::Dot => 49,
            Event::Ee => 50,
            Event::Ans => 51,
            Event::Exe => 52,
            Event::ShiftLeft => 54,
            Event::ShiftUp => 55,
            Event::ShiftDown => 56,
            Event::ShiftRight => 57,
            Event::AlphaLock => 67,
            Event::Cut => 68,
            Event::Copy => 69,
            Event::Paste => 70,
            Event::Clear => 71,
            Event::LeftBracket => 72,
            Event::RightBracket => 73,
            Event::LeftBrace => 74,
            Event::RightBrace => 75,
            Event::Underscore => 76,
            Event::Sto => 77,
            Event::Arcsine => 78,
            Event::Arccosine => 79,
            Event::Arctangent => 80,
            Event::Equal => 81,
            Event::Lower => 82,
            Event::Greater => 83,
            Event::Colon => 122,
            Event::Semicolon => 123,
            Event::DoubleQuotes => 124,
            Event::Percent => 125,
            Event::LowerA => 126,
            Event::LowerB => 127,
            Event::LowerC => 128,
            Event::LowerD => 129,
            Event::LowerE => 130,
            Event::LowerF => 131,
            Event::LowerG => 132,
            Event::LowerH => 133,
            Event::LowerI => 134,
            Event::LowerJ => 135,
            Event::LowerK => 136,
            Event::LowerL => 137,
            Event::LowerM => 138,
            Event::LowerN => 139,
            Event::LowerO => 140,
            Event::LowerP => 141,
            Event::LowerQ => 142,
            Event::LowerR => 144,
            Event::LowerS => 145,
            Event::LowerT => 146,
            Event::LowerU => 147,
            Event::LowerV => 148,
            Event::LowerW => 150,
            Event::LowerX => 151,
            Event::LowerY => 152,
            Event::LowerZ => 153,
            Event::Space => 154,
            Event::Question => 156,
            Event::Exclamation => 157,
            Event::UpperA => 180,
            Event::UpperB => 181,
            Event::UpperC => 182,
            Event::UpperD => 183,
            Event::UpperE => 184,
            Event::UpperF => 185,
            Event::UpperG => 186,
            Event::UpperH => 187,
            Event::UpperI => 188,
            Event::UpperJ => 189,
            Event::UpperK => 190,
            Event::UpperL => 191,
            Event::UpperM => 192,
            Event::UpperN => 193,
            Event::UpperO => 194,
            Event::UpperP => 195,
            Event::UpperQ => 196,
            Event::UpperR => 198,
            Event::UpperS => 199,
            Event::UpperT => 200,
            Event::UpperU => 201,
            Event::UpperV => 202,
            Event::UpperW => 204,
            Event::UpperX => 205,
            Event::UpperY => 206,
            Event::UpperZ => 207,
        }
    }

    /// The event with the given number, if there is one.
    pub fn from_code(code: u16) -> (found: Option<Event>)
        ensures
            match found {
                Some(it) => it.code_of() == code,
                None => forall|it: Event| it.code_of() != code,
            },
    {
        match code {
            0 => Some(Event::Left),
            1 => Some(Event::Up),
            2 => Some(Event::Down),
            3 => Some(Event::Right),
            4 => Some(Event::Okay),
            5 => Some(Event::Back),
            12 => Some(Event::Shift),
            13 => Some(Event::Alpha),
            14 => Some(Event::Xnt),
            15 => Some(Event::Var),
            16 => Some(Event::Toolbox),
            17 => Some(Event::Backspace),
            18 => Some(Event::Exp),
            19 => Some(Event::Ln),
            20 => Some(Event::Log),
            21 => Some(Event::Imaginary),
            22 => Some(Event::Comma),
            23 => Some(Event::Power),
            24 => Some(Event::Sine),
            25 => Some(Event::Cosine),
            26 => Some(Event::Tangent),
            27 => Some(Event::Pi),
            28 => Some(Event::Sqrt),
            29 => Some(Event::Square),
            30 => Some(Event::Seven),
            31 => Some(Event::Eight),
            32 => Some(Event::Nine),
            33 => Some(Event::LParens),
            34 => Some(Event::RParens),
            36 => Some(Event::Four),
            37 => Some(Event::Five),
            38 => Some(Event::Six),
            39 => Some(Event::Mult),
            40 => Some(Event::Division),
            42 => Some(Event::One),
            43 => Some(Event::Two),
            44 => Some(Event::Three),
            45 => Some(Event::Plus),
            46 => Some(Event::Minus),
            48 => Some(Event::Zero),
            49 => Some(Event::Dot),
            50 => Some(Event::Ee),
            51 => Some(Event::Ans),
            52 => Some(Event::Exe),
            54 => Some(Event::ShiftLeft),
            55 => Some(Event::ShiftUp),
            56 => Some(Event::ShiftDown),
            57 => Some(Event::ShiftRight),
            67 => Some(Event::AlphaLock),
            68 => Some(Event::Cut),
            69 => Some(Event::Copy),
            70 => Some(Event::Paste),
            71 => Some(Event::Clear),
            72 => Some(Event::LeftBracket),
            73 => Some(Event::RightBracket),
            74 => Some(Event::LeftBrace),
            75 => Some(Event::RightBrace),
            76 => Some(Event::Underscore),
            77 => Some(Event::Sto),
            78 => Some(Event::Arcsine),
            79 => Some(Event::Arccosine),
            80 => Some(Event::Arctangent),
            81 => Some(Event::Equal),
            82 => Some(Event::Lower),
            83 => Some(Event::Greater),
            122 => Some(Event::Colon),
            123 => Some(Event::Semicolon),
            124 => Some(Event::DoubleQuotes),
            125 => Some(Event::Percent),
            126 => Some(Event::LowerA),
            127 => Some(Event::LowerB),
            128 => Some(Event::LowerC),
            129 => Some(Event::LowerD),
            130 => Some(Event::LowerE),
            131 => Some(Event::LowerF),
            132 => Some(Event::LowerG),
            133 => Some(Event::LowerH),
            134 => Some(Event::LowerI),
            135 => Some(Event::LowerJ),
            136 => Some(Event::LowerK),
            137 => Some(Event::LowerL),
            138 => Some(Event::LowerM),
            139 => Some(Event::LowerN),
            140 => Some(Event::LowerO),
            141 => Some(Event::LowerP),
            142 => Some(Event::LowerQ),
            144 => Some(Event::LowerR),
            145 => Some(Event::LowerS),
            146 => Some(Event::LowerT),
            147 => Some(Event::LowerU),
            148 => Some(Event::LowerV),
            150 => Some(Event::LowerW),
            151 => Some(Event::LowerX),
            152 => Some(Event::LowerY),
            153 => Some(Event::LowerZ),
            154 => Some(Event::Space),
            156 => Some(Event::Question),
            157 => Some(Event::Exclamation),
            180 => Some(Event::UpperA),
            181 => Some(Event::UpperB),
            182 => Some(Event::UpperC),
            183 => Some(Event::UpperD),
            184 => Some(Event::UpperE),
            185 => Some(Event::UpperF),
            186 => Some(Event::UpperG),
            187 => Some(Event::UpperH),
            188 => Some(Event::UpperI),
            189 => Some(Event::UpperJ),
            190 => Some(Event::UpperK),
            191 => Some(Event::UpperL),
            192 => Some(Event::UpperM),
            193 => Some(Event::UpperN),
            194 => Some(Event::UpperO),
            195 => Some(Event::UpperP),
            196 => Some(Event::UpperQ),
            198 => Some(Event::UpperR),
            199 => Some(Event::UpperS),
            200 => Some(Event::UpperT),
            201 => Some(Event::UpperU),
            202 => Some(Event::UpperV),
            204 => Some(Event::UpperW),
            205 => Some(Event::UpperX),
            206 => Some(Event::UpperY),
            207 => Some(Event::UpperZ),
            _ => None,
        }
    }

    /// The events of the ten digit keys, from zero to nine.
    pub const DIGITS: [Event; 10] = [
        Event::Zero,
        Event::One,
        Event::Two,
        Event::Three,
        Event::Four,
        Event::Five,
        Event::Six,
        Event::Seven,
        Event::Eight,
        Event::Nine,
    ];

    /// Whether the event is one of the ten digit keys.
    pub open spec fn is_digit_event(self) -> bool {
        matches!(
            self,
            Event::Zero | Event::One | Event::Two | Event::Three | Event::Four | Event::Five
                | Event::Six | Event::Seven | Event::Eight | Event::Nine
        )
    }

    /// Whether the event is one of the ten digit keys.
    pub fn is_digit(&self) -> (digit: bool)
        ensures
            digit == self.is_digit_event(),
    {
        matches!(
            self,
            Event::Zero | Event::One | Event::Two | Event::Three | Event::Four | Event::Five
                | Event::Six | Event::Seven | Event::Eight | Event::Nine
        )
    }

    /// For a digit key, the number of its event; for any other event, nothing.
    pub fn to_digit(&self) -> (digit: Option<u8>)
        ensures
            digit == if self.is_digit_event() {
                Some(self.code_of() as u8)
            } else {
                None
            },
    {
        if self.is_digit() {
            Some(self.code() as u8)
        } else {
            None
        }
    }
}

/// No two events share a number.
pub proof fn lemma_event_codes(a: Event, b: Event)
    ensures
        a.code_of() == b.code_of() ==> a == b,
        a.is_digit_event() ==> a.code_of() < 256,
{
}

} // verus!
