//! Feature toggle and TTL settings.
//!
//! A TTL is a floating-point number of hours. It is kept as its IEEE 754 bits: the finite positive
//! numbers are those whose bits lie between zero and the bits of infinity, and two of them are
//! equal exactly where their bits are.

use vstd::prelude::*;
use vstd::string::*;

use crate::config::env::{env_bool, switch, variable, variable_or, Environment};
use crate::config::error::{ConfigError, ConfigErrorView};
use crate::text::{pieces, split, text_view, trim, trimmed, views};

verus! {

/// The bits of positive infinity.
pub const INFINITY_BITS: u64 = 0x7ff0000000000000;

/// The bits of 24 hours.
pub const DAY_BITS: u64 = 0x4038000000000000;

/// The texts that tell the TTLs.
#[derive(Debug, PartialEq, Eq)]
pub struct TtlTexts {
    pub allowed: Vec<String>,
    pub default: Option<String>,
}

/// The allowed TTLs as they are written, without white space around them.
pub open spec fn ttl_texts(env: Seq<(Seq<char>, Seq<char>)>) -> Seq<Seq<char>> {
    pieces(variable_or(env, "ALLOWED_TTL_HOURS"@, "0.5,1,6,12,24,72,168"@), ',').map_values(
        |s: Seq<char>| trimmed(s),
    )
}

impl TtlTexts {
    pub fn from_env(env: &Environment) -> (r: TtlTexts)
        ensures
            views(r.allowed@) == ttl_texts(env@),
            text_view(r.default) == variable(env@, "DEFAULT_TTL_HOURS"@),
    {
        let raw = env.var_or("ALLOWED_TTL_HOURS", "0.5,1,6,12,24,72,168");
        let list = split(raw.as_str(), ',');
        let mut allowed: Vec<String> = Vec::new();
        let mut i: usize = 0;
        while i < list.len()
            invariant
                i <= list@.len(),
                allowed@.len() == i,
                forall|j: int| 0 <= j < i ==> #[trigger] allowed@[j]@ == trimmed(list@[j]@),
            decreases list@.len() - i,
        {
            allowed.push(trim(list[i].as_str()).to_owned());
            i = i + 1;
        }
        assert(views(allowed@) =~= views(list@).map_values(|s: Seq<char>| trimmed(s)));
        let default = match env.var("DEFAULT_TTL_HOURS") {
            Some(text) => Some(text.to_owned()),
            None => None,
        };
        TtlTexts { allowed, default }
    }
}

/// The TTLs that the texts tell: bits, or why a text is no number.
#[derive(Debug, PartialEq, Eq)]
pub struct ParsedTtl {
    pub allowed: Vec<Result<u64, String>>,
    pub default: Option<Result<u64, String>>,
}

/// Whether bits are those of a finite positive number.
pub open spec fn usable_ttl(bits: u64) -> bool {
    0 < bits < INFINITY_BITS
}

/// The first TTL that is no number.
pub open spec fn first_failure(list: Seq<Result<u64, String>>) -> Option<Seq<char>>
    decreases list.len(),
{
    if list.len() == 0 {
        None
    } else {
        match list[0] {
            Err(e) => Some(e@),
            Ok(_) => first_failure(list.skip(1)),
        }
    }
}

/// The bits of TTLs that are all numbers.
pub open spec fn ttl_bits(list: Seq<Result<u64, String>>) -> Seq<u64> {
    list.map_values(|r: Result<u64, String>| r->Ok_0)
}

/// Feature toggle and TTL settings.
#[derive(Debug, PartialEq, Eq)]
pub struct FeatureSettings {
    quick_link: bool,
    custom_id: bool,
    default_ttl_hours: u64,
    allowed_ttl_hours: Vec<u64>,
}

/// What the features are set to.
#[verifier::ext_equal]
pub struct FeatureView {
    pub quick_link: bool,
    pub custom_id: bool,
    pub default_ttl_hours: u64,
    pub allowed_ttl_hours: Seq<u64>,
}

impl FeatureView {
    /// TTLs are finite and positive, and the default is one of them.
    pub open spec fn valid(self) -> bool {
        &&& usable_ttl(self.default_ttl_hours)
        &&& self.allowed_ttl_hours.contains(self.default_ttl_hours)
        &&& forall|i: int|
            0 <= i < self.allowed_ttl_hours.len() ==> usable_ttl(
                #[trigger] self.allowed_ttl_hours[i],
            )
    }
}

impl View for FeatureSettings {
    type V = FeatureView;

    closed spec fn view(&self) -> FeatureView {
        FeatureView {
            quick_link: self.quick_link,
            custom_id: self.custom_id,
            default_ttl_hours: self.default_ttl_hours,
            allowed_ttl_hours: self.allowed_ttl_hours@,
        }
    }
}

/// The feature settings in an environment whose TTLs are `parsed`.
pub open spec fn feature_settings(
    env: Seq<(Seq<char>, Seq<char>)>,
    parsed: ParsedTtl,
) -> Result<FeatureView, ConfigErrorView> {
    match (switch(env, "QUICK_LINK"@, true), switch(env, "CUSTOM_ID"@, true)) {
        (Err(e), _) => Err(e),
        (_, Err(e)) => Err(e),
        (Ok(quick_link), Ok(custom_id)) => match (
            first_failure(parsed.allowed@),
            parsed.default,
        ) {
            (Some(e), _) => Err(ConfigErrorView::InvalidAllowedTtl(e)),
            (None, Some(Err(e))) => Err(ConfigErrorView::InvalidDefaultTtl(e@)),
            (None, default) => {
                let view = FeatureView {
                    quick_link,
                    custom_id,
                    default_ttl_hours: match default {
                        Some(r) => r->Ok_0,
                        None => DAY_BITS,
                    },
                    allowed_ttl_hours: ttl_bits(parsed.allowed@),
                };
                if view.valid() {
                    Ok(view)
                } else {
                    Err(ConfigErrorView::InvalidTtlConfiguration)
                }
            },
        },
    }
}

fn collect(list: Vec<Result<u64, String>>) -> (r: Result<Vec<u64>, String>)
    ensures
        match r {
            Ok(bits) => first_failure(list@) is None && bits@ == ttl_bits(list@),
            Err(e) => first_failure(list@) == Some(e@),
        },
{
    let mut bits: Vec<u64> = Vec::new();
    let mut i: usize = 0;
    proof {
        assert(list@.skip(0) =~= list@);
    }
    while i < list.len()
        invariant
            i <= list@.len(),
            bits@.len() == i,
            forall|j: int|
                0 <= j < i ==> #[trigger] list@[j] is Ok && bits@[j] == list@[j]->Ok_0,
            first_failure(list@) == first_failure(list@.skip(i as int)),
        decreases list@.len() - i,
    {
        assert(list@.skip(i as int).skip(1) =~= list@.skip(i + 1));
        match &list[i] {
            Ok(n) => bits.push(*n),
            Err(e) => {
                assert(list@[i as int] is Err);
                return Err(e.clone());
            },
        }
        i = i + 1;
    }
    assert(bits@ =~= ttl_bits(list@));
    Ok(bits)
}

fn ttls_usable(default: u64, allowed: &Vec<u64>) -> (r: bool)
    ensures
        r == (FeatureView {
            quick_link: true,
            custom_id: true,
            default_ttl_hours: default,
            allowed_ttl_hours: allowed@,
        }).valid(),
{
    let mut found = false;
    let mut i: usize = 0;
    while i < allowed.len()
        invariant
            i <= allowed@.len(),
            forall|j: int| 0 <= j < i ==> usable_ttl(#[trigger] allowed@[j]),
            found == exists|j: int| 0 <= j < i && #[trigger] allowed@[j] == default,
        decreases allowed@.len() - i,
    {
        if allowed[i] == 0 || allowed[i] >= INFINITY_BITS {
            assert(!usable_ttl(allowed@[i as int]));
            return false;
        }
        if allowed[i] == default {
            found = true;
            assert(allowed@[i as int] == default);
        }
        i = i + 1;
    }
    proof {
        if found {
            let j = choose|j: int| 0 <= j < i && #[trigger] allowed@[j] == default;
            assert(allowed@.contains(allowed@[j]));
        }
    }
    found
}

impl FeatureSettings {
    /// Whether two-phase uploads are offered.
    pub fn quick_link(&self) -> (r: bool)
        ensures
            r == self@.quick_link,
    {
        self.quick_link
    }

    /// Whether custom file IDs are offered.
    pub fn custom_id(&self) -> (r: bool)
        ensures
            r == self@.custom_id,
    {
        self.custom_id
    }

    /// The default TTL.
    pub fn default_ttl_hours(&self) -> (r: u64)
        ensures
            r == self@.default_ttl_hours,
    {
        self.default_ttl_hours
    }

    /// The allowed TTLs.
    pub fn allowed_ttl_hours(&self) -> (r: &Vec<u64>)
        ensures
            r@ == self@.allowed_ttl_hours,
    {
        &self.allowed_ttl_hours
    }

    pub fn from_env(env: &Environment, parsed: ParsedTtl) -> (r: Result<
        FeatureSettings,
        ConfigError,
    >)
        ensures
            match (r, feature_settings(env@, parsed)) {
                (Ok(a), Ok(b)) => a@ == b,
                (Err(a), Err(b)) => a@ == b,
                _ => false,
            },
    {
        let quick_link = env_bool(env, "QUICK_LINK", true)?;
        let custom_id = env_bool(env, "CUSTOM_ID", true)?;
        let allowed_ttl_hours = match collect(parsed.allowed) {
            Ok(bits) => bits,
            Err(e) => return Err(ConfigError::InvalidAllowedTtl(e)),
        };
        let default_ttl_hours: u64 = match parsed.default {
            Some(Ok(bits)) => bits,
            Some(Err(e)) => return Err(ConfigError::InvalidDefaultTtl(e)),
            None => DAY_BITS,
        };
        if !ttls_usable(default_ttl_hours, &allowed_ttl_hours) {
            return Err(ConfigError::InvalidTtlConfiguration);
        }
        Ok(FeatureSettings { quick_link, custom_id, default_ttl_hours, allowed_ttl_hours })
    }
}

/// The TTLs are taken exactly where all of them are numbers, finite and positive, and the default, which
/// is a day where it is not set, is one of them; then they are taken as they are. The two features are on
/// unless they are switched off.
pub proof fn features_are_set_as_documented(
    env: Seq<(Seq<char>, Seq<char>)>,
    parsed: ParsedTtl,
    allowed: Seq<u64>,
)
    requires
        allowed.len() == parsed.allowed@.len(),
        forall|i: int|
            0 <= i < allowed.len() ==> #[trigger] parsed.allowed@[i] == Ok::<u64, String>(
                allowed[i],
            ),
        parsed.default matches Some(r) ==> r is Ok,
    ensures
        ({
            let default = match parsed.default {
                Some(r) => r->Ok_0,
                None => 0x4038000000000000,
            };
            let usable = (exists|i: int| 0 <= i < allowed.len() && #[trigger] allowed[i] == default)
                && (forall|i: int|
                0 <= i < allowed.len() ==> 0 < #[trigger] allowed[i] < 0x7ff0000000000000);
            let switches = switch(env, "QUICK_LINK"@, true) is Ok && switch(env, "CUSTOM_ID"@, true) is Ok;
            &&& feature_settings(env, parsed) is Ok <==> switches && usable
            &&& feature_settings(env, parsed) matches Ok(features) ==> {
                &&& features.default_ttl_hours == default
                &&& features.allowed_ttl_hours == allowed
                &&& switch(env, "QUICK_LINK"@, true) == Ok::<bool, ConfigErrorView>(
                    features.quick_link,
                )
                &&& switch(env, "CUSTOM_ID"@, true) == Ok::<bool, ConfigErrorView>(
                    features.custom_id,
                )
            }
            &&& switches && !usable ==> feature_settings(env, parsed) == Err::<
                FeatureView,
                ConfigErrorView,
            >(ConfigErrorView::InvalidTtlConfiguration)
        }),
{
    lemma_no_failure(parsed.allowed@);
    let bits = ttl_bits(parsed.allowed@);
    assert forall|i: int| 0 <= i < allowed.len() implies #[trigger] bits[i] == allowed[i] by {
        assert(parsed.allowed@[i] == Ok::<u64, String>(allowed[i]));
    }
    assert(bits =~= allowed);
    let default = match parsed.default {
        Some(r) => r->Ok_0,
        None => 0x4038000000000000,
    };
    if exists|i: int| 0 <= i < allowed.len() && #[trigger] allowed[i] == default {
        let i = choose|i: int| 0 <= i < allowed.len() && #[trigger] allowed[i] == default;
        assert(allowed.contains(allowed[i]));
        if forall|i: int| 0 <= i < allowed.len() ==> 0 < #[trigger] allowed[i] < 0x7ff0000000000000 {
            assert(0 < allowed[i] < 0x7ff0000000000000);
        }
    }
    if allowed.contains(default) {
        let i = choose|i: int| 0 <= i < allowed.len() && allowed[i] == default;
        assert(allowed[i] == default);
    }
}

proof fn lemma_no_failure(list: Seq<Result<u64, String>>)
    requires
        forall|i: int| 0 <= i < list.len() ==> #[trigger] list[i] is Ok,
    ensures
        first_failure(list) is None,
    decreases list.len(),
{
    if list.len() > 0 {
        assert(list[0] is Ok);
        let rest = list.skip(1);
        assert forall|i: int| 0 <= i < rest.len() implies #[trigger] rest[i] is Ok by {
            assert(rest[i] == list[i + 1]);
        }
        lemma_no_failure(rest);
    }
}

/// The first TTL that is no number is the one that is told of.
pub proof fn first_bad_ttl_is_told(
    before: Seq<Result<u64, String>>,
    error: String,
    after: Seq<Result<u64, String>>,
)
    requires
        forall|i: int| 0 <= i < before.len() ==> #[trigger] before[i] is Ok,
    ensures
        first_failure(before.push(Err(error)) + after) == Some(error@),
    decreases before.len(),
{
    let all = before.push(Err(error)) + after;
    assert(all[before.len() as int] == Err::<u64, String>(error));
    if before.len() > 0 {
        assert(before[0] is Ok);
        assert(all[0] == before[0]);
        let rest = before.skip(1);
        assert forall|i: int| 0 <= i < rest.len() implies #[trigger] rest[i] is Ok by {
            assert(rest[i] == before[i + 1]);
        }
        first_bad_ttl_is_told(rest, error, after);
        assert(all.skip(1) =~= rest.push(Err(error)) + after);
    }
}

/// Allowed TTLs are read one by one between the commas, without the white space around them.
pub proof fn ttls_are_read_one_by_one(env: Seq<(Seq<char>, Seq<char>)>, list: Seq<Seq<char>>)
    requires
        list.len() > 0,
        forall|i: int|
            0 <= i < list.len() ==> !(#[trigger] list[i]).contains(',') && trimmed(list[i])
                == list[i],
        variable(env, "ALLOWED_TTL_HOURS"@) == Some(crate::text::glued(list, ',')),
    ensures
        ttl_texts(env) == list,
{
    crate::text::glued_texts_come_apart(list, ',');
    assert(ttl_texts(env) =~= list);
}

/// What is wrong with the features is told: a switch that is none first, then a TTL that is no number, then
/// a default that is none.
pub proof fn bad_features_are_told(
    env: Seq<(Seq<char>, Seq<char>)>,
    parsed: ParsedTtl,
    error: ConfigErrorView,
)
    ensures
        ({
            let told = feature_settings(env, parsed) == Err::<FeatureView, ConfigErrorView>(error);
            let quick_link = switch(env, "QUICK_LINK"@, true);
            let custom_id = switch(env, "CUSTOM_ID"@, true);
            let allowed = first_failure(parsed.allowed@);
            &&& quick_link == Err::<bool, ConfigErrorView>(error) ==> told
            &&& quick_link is Ok && custom_id == Err::<bool, ConfigErrorView>(error) ==> told
            &&& quick_link is Ok && custom_id is Ok ==> {
                &&& allowed is Some && error == ConfigErrorView::InvalidAllowedTtl(allowed->0) ==> told
                &&& allowed is None ==> (parsed.default matches Some(Err(e)) ==> (error
                    == ConfigErrorView::InvalidDefaultTtl(e@) ==> told))
            }
        }),
{
}

/// Where no TTLs are set, they are those from half an hour to a week.
pub proof fn default_ttls_are_as_documented(
    env: Seq<(Seq<char>, Seq<char>)>,
    other: Seq<(Seq<char>, Seq<char>)>,
)
    requires
        variable(env, "ALLOWED_TTL_HOURS"@) is None,
        variable(other, "ALLOWED_TTL_HOURS"@) == Some("0.5,1,6,12,24,72,168"@),
    ensures
        ttl_texts(env) == ttl_texts(other),
{
}

} // verus!
