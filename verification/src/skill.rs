//! Skills that tune the player's resource pools.
use vstd::prelude::*;
use vstd::string::StringExecFns;

verus! {

#[derive(Clone, Copy, Debug, PartialEq, Eq, Structural)]
pub enum Skill {
    AddPercentageHP(i32),
    AddPercentageAmmo(i32),
    AddPercentageBoost(i32),
    AddHp(i32),
    AddAmmo(i32),
    AddBoost(i32),
    AddHpGain(i32),
    AddAmmoGain(i32),
    AddBoostGain(i32),
}

/// The character of a decimal digit.
pub open spec fn digit_char(d: int) -> char {
    if d == 0 {
        '0'
    } else if d == 1 {
        '1'
    } else if d == 2 {
        '2'
    } else if d == 3 {
        '3'
    } else if d == 4 {
        '4'
    } else if d == 5 {
        '5'
    } else if d == 6 {
        '6'
    } else if d == 7 {
        '7'
    } else if d == 8 {
        '8'
    } else {
        '9'
    }
}

/// Decimal digits of a natural number, most significant first.
pub open spec fn digits(n: nat) -> Seq<char>
    decreases n,
{
    if n < 10 {
        seq![digit_char(n as int)]
    } else {
        digits(n / 10) + seq![digit_char((n % 10) as int)]
    }
}

/// Decimal notation of an integer, with a minus sign when negative.
pub open spec fn decimal(v: int) -> Seq<char> {
    if v < 0 {
        seq!['-'] + digits((-v) as nat)
    } else {
        digits(v as nat)
    }
}

fn digit_str(d: u64) -> (s: &'static str)
    requires
        d < 10,
    ensures
        s@ == seq![digit_char(d as int)],
{
    proof {
        reveal_strlit("0");
        reveal_strlit("1");
        reveal_strlit("2");
        reveal_strlit("3");
        reveal_strlit("4");
        reveal_strlit("5");
        reveal_strlit("6");
        reveal_strlit("7");
        reveal_strlit("8");
        reveal_strlit("9");
    }
    let s: &'static str = if d == 0 {
        "0"
    } else if d == 1 {
        "1"
    } else if d == 2 {
        "2"
    } else if d == 3 {
        "3"
    } else if d == 4 {
        "4"
    } else if d == 5 {
        "5"
    } else if d == 6 {
        "6"
    } else if d == 7 {
        "7"
    } else if d == 8 {
        "8"
    } else {
        "9"
    };
    assert(s@ =~= seq![digit_char(d as int)]);
    s
}

fn push_digits(text: &mut String, n: u64)
    ensures
        final(text)@ == old(text)@ + digits(n as nat),
    decreases n,
{
    if n >= 10 {
        push_digits(text, n / 10);
    }
    let d: &'static str = digit_str(n % 10);
    text.append(d);
    assert(final(text)@ =~= old(text)@ + digits(n as nat));
}

/// Appends the decimal notation of `v`.
pub fn push_decimal(text: &mut String, v: i32)
    ensures
        final(text)@ == old(text)@ + decimal(v as int),
{
    if v < 0 {
        proof {
            reveal_strlit("-");
        }
        text.append("-");
        assert(text@ =~= old(text)@ + seq!['-']);
        let magnitude: u64 = (-(v as i64)) as u64;
        push_digits(text, magnitude);
        assert(final(text)@ =~= old(text)@ + decimal(v as int));
    } else {
        push_digits(text, v as u64);
    }
}

impl Skill {
    /// The amount that the skill adds.
    pub open spec fn value(self) -> i32 {
        match self {
            Skill::AddPercentageHP(v) => v,
            Skill::AddPercentageAmmo(v) => v,
            Skill::AddPercentageBoost(v) => v,
            Skill::AddHp(v) => v,
            Skill::AddAmmo(v) => v,
            Skill::AddBoost(v) => v,
            Skill::AddHpGain(v) => v,
            Skill::AddAmmoGain(v) => v,
            Skill::AddBoostGain(v) => v,
        }
    }

    pub open spec fn name_spec(self) -> Seq<char> {
        match self {
            Skill::AddPercentageHP(_) => "HP"@,
            Skill::AddPercentageAmmo(_) => "Ammo"@,
            Skill::AddPercentageBoost(_) => "Boost"@,
            Skill::AddHp(_) => "Flat HP"@,
            Skill::AddAmmo(_) => "Flat Ammo"@,
            Skill::AddBoost(_) => "Flat Boost"@,
            Skill::AddHpGain(_) => "HP Gain"@,
            Skill::AddAmmoGain(_) => "Ammo Gain"@,
            Skill::AddBoostGain(_) => "Boost Gain"@,
        }
    }

    /// What follows the amount in the description.
    pub open spec fn suffix_spec(self) -> Seq<char> {
        match self {
            Skill::AddPercentageHP(_) => "% HP"@,
            Skill::AddPercentageAmmo(_) => "% Ammo"@,
            Skill::AddPercentageBoost(_) => "% Boost"@,
            Skill::AddHp(_) => " HP"@,
            Skill::AddAmmo(_) => " Ammo"@,
            Skill::AddBoost(_) => " Boost"@,
            Skill::AddHpGain(_) => " HP Gain"@,
            Skill::AddAmmoGain(_) => " Ammo Gain"@,
            Skill::AddBoostGain(_) => " Boost Gain"@,
        }
    }

    /// A plus sign, the amount in decimal, and the unit.
    pub open spec fn description_spec(self) -> Seq<char> {
        "+"@ + decimal(self.value() as int) + self.suffix_spec()
    }

    pub fn name(&self) -> (s: String)
        ensures
            s@ == self.name_spec(),
    {
        let text: &'static str = match self {
            Skill::AddPercentageHP(_) => "HP",
            Skill::AddPercentageAmmo(_) => "Ammo",
            Skill::AddPercentageBoost(_) => "Boost",
            Skill::AddHp(_) => "Flat HP",
            Skill::AddAmmo(_) => "Flat Ammo",
            Skill::AddBoost(_) => "Flat Boost",
            Skill::AddHpGain(_) => "HP Gain",
            Skill::AddAmmoGain(_) => "Ammo Gain",
            Skill::AddBoostGain(_) => "Boost Gain",
        };
        String::from_str(text)
    }

    pub fn description(&self) -> (s: String)
        ensures
            s@ == self.description_spec(),
    {
        let (value, suffix): (i32, &'static str) = match self {
            Skill::AddPercentageHP(v) => (*v, "% HP"),
            Skill::AddPercentageAmmo(v) => (*v, "% Ammo"),
            Skill::AddPercentageBoost(v) => (*v, "% Boost"),
            Skill::AddHp(v) => (*v, " HP"),
            Skill::AddAmmo(v) => (*v, " Ammo"),
            Skill::AddBoost(v) => (*v, " Boost"),
            Skill::AddHpGain(v) => (*v, " HP Gain"),
            Skill::AddAmmoGain(v) => (*v, " Ammo Gain"),
            Skill::AddBoostGain(v) => (*v, " Boost Gain"),
        };
        let mut text: String = String::from_str("+");
        push_decimal(&mut text, value);
        text.append(suffix);
        text
    }
}

} // verus!
