//! The environment that the configuration is read from.

use vstd::prelude::*;
use vstd::string::*;

use crate::config::error::{ConfigError, ConfigErrorView};
use crate::text::{lower, lowered, parse_unsigned, same, trim, trimmed, unsigned, decimal_text, decimal};

verus! {

/// The environment variables that hold valid Unicode, each with its value.
#[derive(Debug, PartialEq, Eq)]
pub struct Environment {
    pub vars: Vec<(String, String)>,
}

impl View for Environment {
    type V = Seq<(Seq<char>, Seq<char>)>;

    open spec fn view(&self) -> Seq<(Seq<char>, Seq<char>)> {
        self.vars@.map_values(|v: (String, String)| (v.0@, v.1@))
    }
}

/// The value of a variable, where it is set.
pub open spec fn variable(env: Seq<(Seq<char>, Seq<char>)>, name: Seq<char>) -> Option<Seq<char>>
    decreases env.len(),
{
    if env.len() == 0 {
        None
    } else if env[0].0 == name {
        Some(env[0].1)
    } else {
        variable(env.skip(1), name)
    }
}

/// The value of a variable, or a default.
pub open spec fn variable_or(
    env: Seq<(Seq<char>, Seq<char>)>,
    name: Seq<char>,
    default: Seq<char>,
) -> Seq<char> {
    match variable(env, name) {
        Some(v) => v,
        None => default,
    }
}

/// The value of a variable, where it is set and not blank.
pub open spec fn filled_variable(
    env: Seq<(Seq<char>, Seq<char>)>,
    name: Seq<char>,
) -> Option<Seq<char>> {
    match variable(env, name) {
        Some(v) => if trimmed(v).len() > 0 {
            Some(v)
        } else {
            None
        },
        None => None,
    }
}

impl Environment {
    /// The value of a variable, where it is set.
    pub fn var(&self, name: &str) -> (r: Option<&str>)
        ensures
            match r {
                Some(v) => variable(self@, name@) == Some(v@),
                None => variable(self@, name@) is None,
            },
    {
        let mut i: usize = 0;
        proof {
            assert(self@.skip(0) =~= self@);
        }
        while i < self.vars.len()
            invariant
                i <= self.vars@.len(),
                self@.len() == self.vars@.len(),
                variable(self@, name@) == variable(self@.skip(i as int), name@),
            decreases self.vars@.len() - i,
        {
            assert(self@[i as int] == (self.vars@[i as int].0@, self.vars@[i as int].1@));
            if same(self.vars[i].0.as_str(), name) {
                return Some(self.vars[i].1.as_str());
            }
            assert(self@.skip(i as int).skip(1) =~= self@.skip(i + 1));
            i = i + 1;
        }
        None
    }

    /// The value of a variable, or a default.
    pub fn var_or(&self, name: &str, default: &str) -> (r: String)
        ensures
            r@ == variable_or(self@, name@, default@),
    {
        match self.var(name) {
            Some(v) => v.to_owned(),
            None => default.to_owned(),
        }
    }

    /// The value of a variable, where it is set and not blank.
    pub fn filled(&self, name: &str) -> (r: Option<String>)
        ensures
            match r {
                Some(v) => filled_variable(self@, name@) == Some(v@),
                None => filled_variable(self@, name@) is None,
            },
    {
        match self.var(name) {
            Some(v) => if trim(v).unicode_len() > 0 {
                Some(v.to_owned())
            } else {
                None
            },
            None => None,
        }
    }
}

/// The value of a numeric variable that must lie between `min` and `max`. A number above `top`
/// does not fit its type and is none.
pub open spec fn bounded(
    env: Seq<(Seq<char>, Seq<char>)>,
    name: Seq<char>,
    default: u64,
    min: u64,
    max: u64,
    top: u64,
) -> Result<u64, ConfigErrorView> {
    let value = match variable(env, name) {
        Some(raw) => unsigned(raw, top as nat),
        None => Some(default as nat),
    };
    match value {
        None => Err(ConfigErrorView::InvalidNumber(name)),
        Some(n) => if n < min || n > max {
            Err(ConfigErrorView::OutOfRange(name, decimal(min as nat), decimal(max as nat)))
        } else {
            Ok(n as u64)
        },
    }
}

/// The value of a switch.
pub open spec fn switch(
    env: Seq<(Seq<char>, Seq<char>)>,
    name: Seq<char>,
    default: bool,
) -> Result<bool, ConfigErrorView> {
    match variable(env, name) {
        None => Ok(default),
        Some(raw) => {
            let text = lowered(trimmed(raw));
            if text == "1"@ || text == "true"@ {
                Ok(true)
            } else if text == "0"@ || text == "false"@ {
                Ok(false)
            } else {
                Err(ConfigErrorView::InvalidBoolean(name))
            }
        },
    }
}

fn bounded_up_to(
    env: &Environment,
    name: &'static str,
    default: u64,
    min: u64,
    max: u64,
    top: u64,
) -> (r: Result<u64, ConfigError>)
    ensures
        match (r, bounded(env@, name@, default, min, max, top)) {
            (Ok(a), Ok(b)) => a == b,
            (Err(a), Err(b)) => a@ == b,
            _ => false,
        },
{
    let value: u64 = match env.var(name) {
        Some(raw) => match parse_unsigned(raw, top) {
            Some(n) => n,
            None => return Err(ConfigError::InvalidNumber { name }),
        },
        None => default,
    };
    if value < min || value > max {
        return Err(
            ConfigError::OutOfRange { name, min: decimal_text(min), max: decimal_text(max) },
        );
    }
    Ok(value)
}

/// The value of a numeric variable that must lie between `min` and `max`.
pub fn bounded_env(env: &Environment, name: &'static str, default: u64, min: u64, max: u64) -> (r:
    Result<u64, ConfigError>)
    ensures
        match (r, bounded(env@, name@, default, min, max, u64::MAX)) {
            (Ok(a), Ok(b)) => a == b,
            (Err(a), Err(b)) => a@ == b,
            _ => false,
        },
{
    bounded_up_to(env, name, default, min, max, u64::MAX)
}

/// The value of a numeric variable that counts things and must lie between `min` and `max`.
pub fn bounded_count(
    env: &Environment,
    name: &'static str,
    default: usize,
    min: usize,
    max: usize,
) -> (r: Result<usize, ConfigError>)
    ensures
        match (
            r,
            bounded(env@, name@, default as u64, min as u64, max as u64, usize::MAX as u64),
        ) {
            (Ok(a), Ok(b)) => a == b,
            (Err(a), Err(b)) => a@ == b,
            _ => false,
        },
{
    match bounded_up_to(
        env,
        name,
        default as u64,
        min as u64,
        max as u64,
        usize::MAX as u64,
    ) {
        Ok(n) => Ok(n as usize),
        Err(e) => Err(e),
    }
}

/// The value of a switch: `true`, `false`, `1` or `0`.
pub fn env_bool(env: &Environment, name: &'static str, default: bool) -> (r: Result<
    bool,
    ConfigError,
>)
    ensures
        match (r, switch(env@, name@, default)) {
            (Ok(a), Ok(b)) => a == b,
            (Err(a), Err(b)) => a@ == b,
            _ => false,
        },
{
    match env.var(name) {
        None => Ok(default),
        Some(raw) => {
            let text = lower(trim(raw));
            if same(text.as_str(), "1") || same(text.as_str(), "true") {
                Ok(true)
            } else if same(text.as_str(), "0") || same(text.as_str(), "false") {
                Ok(false)
            } else {
                Err(ConfigError::InvalidBoolean { name })
            }
        },
    }
}

/// A variable is read by its name: the first of that name counts, whatever other variables stand before
/// it and whatever comes behind it. Where there is none of that name, the default counts.
pub proof fn first_variable_of_a_name_counts(
    before: Seq<(Seq<char>, Seq<char>)>,
    name: Seq<char>,
    value: Seq<char>,
    after: Seq<(Seq<char>, Seq<char>)>,
    default: Seq<char>,
)
    requires
        forall|i: int| 0 <= i < before.len() ==> (#[trigger] before[i]).0 != name,
    ensures
        variable(before.push((name, value)) + after, name) == Some(value),
        variable_or(before.push((name, value)) + after, name, default) == value,
        variable(before, name) is None,
        variable_or(before, name, default) == default,
    decreases before.len(),
{
    let all = before.push((name, value)) + after;
    assert(all[before.len() as int].0 == name);
    if before.len() > 0 {
        let rest = before.skip(1);
        assert forall|i: int| 0 <= i < rest.len() implies (#[trigger] rest[i]).0 != name by {
            assert(rest[i] == before[i + 1]);
        }
        first_variable_of_a_name_counts(rest, name, value, after, default);
        assert(all[0] == before[0]);
        assert(all.skip(1) =~= rest.push((name, value)) + after);
    }
}

/// A blank variable counts as not set, and any other counts as it is, with the white space around it.
pub proof fn blank_variables_count_as_unset(env: Seq<(Seq<char>, Seq<char>)>, name: Seq<char>)
    ensures
        filled_variable(env, name) matches Some(value) ==> variable(env, name) == Some(value) && (
        exists|i: int| 0 <= i < value.len() && !crate::text::is_space(#[trigger] value[i])),
        variable(env, name) matches Some(value) ==> (exists|i: int|
            0 <= i < value.len() && !crate::text::is_space(#[trigger] value[i]))
            ==> filled_variable(env, name) == Some(value),
        variable(env, name) is None ==> filled_variable(env, name) is None,
{
    if let Some(value) = variable(env, name) {
        let t = trimmed(value);
        crate::text::trimming_drops_outer_space(value);
        let (from, to) = choose|from: int, to: int|
            0 <= from <= to <= value.len() && t == #[trigger] value.subrange(from, to) && (forall|
                i: int,
            |
                0 <= i < from || to <= i < value.len() ==> crate::text::is_space(
                    #[trigger] value[i],
                ));
        if t.len() > 0 {
            assert(t[0] == value[from]);
            assert(!crate::text::is_space(value[from]));
        } else {
            assert(from == to);
            assert forall|i: int| 0 <= i < value.len() implies crate::text::is_space(
                #[trigger] value[i],
            ) by {}
        }
    }
}

/// A limit is taken exactly where it is a number between its bounds, both included: an unset one is the
/// default, what is no number is refused as such, and a number outside of the bounds is refused as that.
pub proof fn limits_keep_their_bounds(
    env: Seq<(Seq<char>, Seq<char>)>,
    name: Seq<char>,
    default: u64,
    min: u64,
    max: u64,
    top: u64,
    n: u64,
)
    requires
        min <= default <= max <= top,
    ensures
        variable(env, name) is None ==> bounded(env, name, default, min, max, top) == Ok::<
            u64,
            ConfigErrorView,
        >(default),
        variable(env, name) == Some(decimal(n as nat)) ==> (match bounded(
            env,
            name,
            default,
            min,
            max,
            top,
        ) {
            Ok(value) => value == n && min <= n <= max,
            Err(e) => n < min || n > max,
        }),
        variable(env, name) == Some(decimal(n as nat)) && n <= top && !(min <= n <= max) ==> bounded(
            env,
            name,
            default,
            min,
            max,
            top,
        ) == Err::<u64, ConfigErrorView>(
            ConfigErrorView::OutOfRange(name, decimal(min as nat), decimal(max as nat)),
        ),
        (variable(env, name) matches Some(raw) && unsigned(raw, top as nat) is None) ==> bounded(
            env,
            name,
            default,
            min,
            max,
            top,
        ) == Err::<u64, ConfigErrorView>(ConfigErrorView::InvalidNumber(name)),
        bounded(env, name, default, min, max, top) matches Ok(value) ==> min <= value <= max,
{
    crate::text::lemma_decimal(n as nat);
    if n <= top {
        crate::text::decimal_round_trip(n as nat, top as nat);
    } else {
        crate::text::decimal_round_trip(n as nat, n as nat);
    }
}

/// A switch is on for `1` and `true`, off for `0` and `false`, in capitals or not and with white space
/// around them or not, and the default where it is not set; anything else is refused.
pub proof fn switches_have_two_words_each(
    env: Seq<(Seq<char>, Seq<char>)>,
    name: Seq<char>,
    default: bool,
)
    ensures
        match variable(env, name) {
            None => switch(env, name, default) == Ok::<bool, ConfigErrorView>(default),
            Some(raw) => {
                let word = lowered(trimmed(raw));
                let on = word == seq!['1'] || word == seq!['t', 'r', 'u', 'e'];
                let off = word == seq!['0'] || word == seq!['f', 'a', 'l', 's', 'e'];
                if on {
                    switch(env, name, default) == Ok::<bool, ConfigErrorView>(true)
                } else if off {
                    switch(env, name, default) == Ok::<bool, ConfigErrorView>(false)
                } else {
                    switch(env, name, default) == Err::<bool, ConfigErrorView>(
                        ConfigErrorView::InvalidBoolean(name),
                    )
                }
            },
        },
{
    reveal_strlit("1");
    reveal_strlit("0");
    reveal_strlit("true");
    reveal_strlit("false");
    assert("1"@ =~= seq!['1']);
    assert("0"@ =~= seq!['0']);
    assert("true"@ =~= seq!['t', 'r', 'u', 'e']);
    assert("false"@ =~= seq!['f', 'a', 'l', 's', 'e']);
    let one = seq!['1'];
    let zero = seq!['0'];
    let t = seq!['t', 'r', 'u', 'e'];
    let f = seq!['f', 'a', 'l', 's', 'e'];
    assert(one[0] != zero[0]);
    assert(t.len() != f.len() && t.len() != one.len() && f.len() != one.len());
}

/// Whether `value` is what a numeric variable says, or its default where it is not set.
pub open spec fn says(
    env: Seq<(Seq<char>, Seq<char>)>,
    name: Seq<char>,
    default: u64,
    value: int,
) -> bool {
    match variable(env, name) {
        None => value == default,
        Some(raw) => unsigned(raw, u64::MAX as nat) == Some(value as nat) && value >= 0,
    }
}

/// Whether a numeric variable is not set or a number from `min` to `max`.
pub open spec fn fits(
    env: Seq<(Seq<char>, Seq<char>)>,
    name: Seq<char>,
    min: u64,
    max: u64,
) -> bool {
    match variable(env, name) {
        None => true,
        Some(raw) => unsigned(raw, u64::MAX as nat) matches Some(n) && min <= n <= max,
    }
}

/// A limit that is not set or lies between its bounds is taken as it is; any other is refused.
pub(crate) proof fn lemma_bounded(
    env: Seq<(Seq<char>, Seq<char>)>,
    name: Seq<char>,
    default: u64,
    min: u64,
    max: u64,
    top: u64,
)
    requires
        min <= default <= max <= top,
    ensures
        bounded(env, name, default, min, max, top) is Ok <==> fits(env, name, min, max),
        bounded(env, name, default, min, max, top) matches Ok(value) ==> says(
            env,
            name,
            default,
            value as int,
        ),
{
}

/// Whether an error tells of the variable of that name: that it is no number, or which bounds it must keep.
pub open spec fn tells_of(error: ConfigErrorView, name: Seq<char>, min: u64, max: u64) -> bool {
    error == ConfigErrorView::InvalidNumber(name) || error == ConfigErrorView::OutOfRange(
        name,
        decimal(min as nat),
        decimal(max as nat),
    )
}

} // verus!
